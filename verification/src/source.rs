//! Where frames come from, where they are kept, and how large they are
//! drawn.

use vstd::prelude::*;
use crate::render::RenderMode;
use crate::text::{decimal, push_decimal};
use crate::timeline::{timestamp_text, FrameTimeline, Timeline};

verus! {

/// Where frames come from.
#[derive(Clone, Copy, Debug, PartialEq, Eq, Structural)]
pub enum FrameSource {
    /// Each frame is extracted from the video when it is due, into one slot
    /// that every frame reuses.
    Streaming,
    /// Every frame is extracted into a file of its own before playback
    /// starts.
    Prerender,
}

/// `.adplaytmp`: the directory that holds a session's temporary files.
pub open spec fn workspace_dir() -> Seq<u8> {
    seq![
        '.' as u8,
        'a' as u8,
        'd' as u8,
        'p' as u8,
        'l' as u8,
        'a' as u8,
        'y' as u8,
        't' as u8,
        'm' as u8,
        'p' as u8,
    ]
}

/// `.adplaytmp/tmp`: what the names of the shared files begin with.
pub open spec fn shared_stem() -> Seq<u8> {
    workspace_dir() + seq!['/' as u8, 't' as u8, 'm' as u8, 'p' as u8]
}

/// `.bmp`: the ending of a frame's file.
pub open spec fn frame_suffix() -> Seq<u8> {
    seq!['.' as u8, 'b' as u8, 'm' as u8, 'p' as u8]
}

/// `.mp3`: the ending of the audio track's file.
pub open spec fn audio_suffix() -> Seq<u8> {
    seq!['.' as u8, 'm' as u8, 'p' as u8, '3' as u8]
}

/// `.adplaytmp/tmp.mp3`: the file of the audio track.
pub open spec fn audio_file() -> Seq<u8> {
    shared_stem() + audio_suffix()
}

impl FrameSource {
    /// The file that holds frame `index`: `.adplaytmp/tmp.bmp` for every
    /// frame of a streaming source, and `.adplaytmp/`, the index in decimal
    /// and `.bmp` for a prerendered one.
    pub open spec fn frame_file(self, index: nat) -> Seq<u8> {
        match self {
            FrameSource::Streaming => shared_stem() + frame_suffix(),
            FrameSource::Prerender => workspace_dir().push('/' as u8) + decimal(index) + frame_suffix(),
        }
    }

    /// Whether a frame has to be extracted at the moment it is asked for.
    pub open spec fn extracts_on_demand(self) -> bool {
        self is Streaming
    }

    /// The moment to seek to when frame `index` is asked for, written for the
    /// decoder: the moment at which the frame begins, where the frame has to
    /// be extracted first, and none where its file is there already.
    pub open spec fn seek_for(self, timeline: Timeline, index: nat) -> Option<Seq<u8>> {
        if self.extracts_on_demand() {
            Some(timestamp_text(timeline.seek_secs(index), timeline.seek_micros(index)))
        } else {
            None
        }
    }
}

/// What it takes to get one frame: where to seek in the video before the
/// frame is extracted, if it has to be extracted at all, and the file that
/// holds the frame.
#[derive(Clone, Debug, PartialEq, Eq)]
pub struct FrameRequest {
    pub seek: Option<Vec<u8>>,
    pub file: Vec<u8>,
}

impl FrameRequest {
    /// The moment to seek to, as a sequence of bytes.
    pub open spec fn seek_text(self) -> Option<Seq<u8>> {
        match self.seek {
            Some(text) => Some(text@),
            None => None,
        }
    }
}

/// The size, width first, at which a picture of `width` by `height` pixels
/// is drawn on a canvas of `canvas` rows: the width that keeps the picture's
/// proportions at the canvas height, and the canvas height itself, halved in
/// full mode, where a cell shows one pixel and not two. There is no such
/// size for a picture without rows, nor where the width does not fit in 32
/// bits.
pub open spec fn target_size(width: nat, height: nat, canvas: nat, mode: RenderMode) -> Option<
    (u32, u32),
> {
    if height == 0 || width * canvas / height > u32::MAX {
        None
    } else {
        Some(
            (
                (width * canvas / height) as u32,
                match mode {
                    RenderMode::Full => (canvas / 2) as u32,
                    RenderMode::HalfPixel => canvas as u32,
                },
            ),
        )
    }
}

/// Appends `.adplaytmp` to `out`.
fn push_workspace_dir(out: &mut Vec<u8>)
    ensures
        final(out)@ == old(out)@ + workspace_dir(),
{
    out.push('.' as u8);
    out.push('a' as u8);
    out.push('d' as u8);
    out.push('p' as u8);
    out.push('l' as u8);
    out.push('a' as u8);
    out.push('y' as u8);
    out.push('t' as u8);
    out.push('m' as u8);
    out.push('p' as u8);
    assert(out@ =~= old(out)@ + workspace_dir());
}

/// Appends `/tmp` to `out`.
fn push_shared_name(out: &mut Vec<u8>)
    ensures
        final(out)@ == old(out)@ + seq!['/' as u8, 't' as u8, 'm' as u8, 'p' as u8],
{
    out.push('/' as u8);
    out.push('t' as u8);
    out.push('m' as u8);
    out.push('p' as u8);
    assert(out@ =~= old(out)@ + seq!['/' as u8, 't' as u8, 'm' as u8, 'p' as u8]);
}

/// The path of the temporary workspace.
pub fn workspace_path() -> (path: Vec<u8>)
    ensures
        path@ == workspace_dir(),
{
    let mut path: Vec<u8> = Vec::new();
    push_workspace_dir(&mut path);
    path
}

/// The path of the file that holds the audio track.
pub fn audio_path() -> (path: Vec<u8>)
    ensures
        path@ == audio_file(),
{
    let mut path: Vec<u8> = Vec::new();
    push_workspace_dir(&mut path);
    push_shared_name(&mut path);
    path.push('.' as u8);
    path.push('m' as u8);
    path.push('p' as u8);
    path.push('3' as u8);
    assert(path@ =~= audio_file());
    path
}

impl FrameSource {
    /// The path of the file that holds frame `index`.
    pub fn frame_path(self, index: u32) -> (path: Vec<u8>)
        ensures
            path@ == self.frame_file(index as nat),
    {
        let mut path: Vec<u8> = Vec::new();
        push_workspace_dir(&mut path);
        match self {
            FrameSource::Streaming => {
                push_shared_name(&mut path);
            },
            FrameSource::Prerender => {
                path.push('/' as u8);
                push_decimal(&mut path, index as u64);
            },
        }
        path.push('.' as u8);
        path.push('b' as u8);
        path.push('m' as u8);
        path.push('p' as u8);
        assert(path@ =~= self.frame_file(index as nat));
        path
    }

    /// What it takes to show frame `index`: for a streaming source the frame
    /// is extracted first, at the moment at which it begins; for a
    /// prerendered one its file is there already.
    pub fn request(self, timeline: &FrameTimeline, index: u32) -> (wanted: FrameRequest)
        ensures
            wanted.seek_text() == self.seek_for(timeline@, index as nat),
            wanted.file@ == self.frame_file(index as nat),
    {
        let seek: Option<Vec<u8>> = match self {
            FrameSource::Streaming => Some(timeline.seek_text(index)),
            FrameSource::Prerender => None,
        };
        FrameRequest { seek, file: self.frame_path(index) }
    }

    /// What it takes to extract frame `index`, on demand or ahead of time:
    /// the moment at which the frame begins and the file that it goes to.
    pub fn extraction(self, timeline: &FrameTimeline, index: u32) -> (job: FrameRequest)
        ensures
            job.seek_text() == Some(
                timestamp_text(
                    timeline@.seek_secs(index as nat),
                    timeline@.seek_micros(index as nat),
                ),
            ),
            job.file@ == self.frame_file(index as nat),
    {
        FrameRequest { seek: Some(timeline.seek_text(index)), file: self.frame_path(index) }
    }
}

/// The size, width first, at which a picture of `width` by `height` pixels
/// is drawn on a canvas of `canvas` rows, or `None` where there is none.
pub fn scaled_size(width: u32, height: u32, canvas: u32, mode: RenderMode) -> (size: Option<
    (u32, u32),
>)
    ensures
        size == target_size(width as nat, height as nat, canvas as nat, mode),
{
    if height == 0 {
        return None;
    }
    assert(width * canvas <= 0xffff_ffff * 0xffff_ffff) by (nonlinear_arith)
        requires
            width <= 0xffff_ffff,
            canvas <= 0xffff_ffff,
    ;
    let wide: u64 = (width as u64) * (canvas as u64) / (height as u64);
    if wide > u32::MAX as u64 {
        return None;
    }
    let tall: u32 = match mode {
        RenderMode::Full => canvas / 2,
        RenderMode::HalfPixel => canvas,
    };
    Some((wide as u32, tall))
}

} // verus!
