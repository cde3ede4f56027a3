//! How a run is set up: how tall the canvas is, whether the media file is a
//! video, and the failures that end a run before it shows anything.

use vstd::prelude::*;
use vstd::slice::slice_subrange;
use vstd::string::StringSliceAdditionalSpecFns;
use crate::text::{parse_u32, unsigned_value, POINT};

verus! {

/// Why the program gives up before anything is shown, or on a picture that
/// it cannot show.
#[derive(Clone, Copy, Debug, PartialEq, Eq, Structural)]
pub enum Failure {
    /// There is no media file at the path that was given.
    NoSuchMedia,
    /// No canvas height was asked for and the terminal's size is unknown.
    NoCanvasSize,
    /// The media file is in no format that can be decoded.
    UnknownFormat,
    /// The canvas height that was asked for is not an unsigned number.
    BadSize,
}

impl Failure {
    /// The exit status that the process ends with on this failure.
    pub open spec fn status(self) -> u8 {
        match self {
            Failure::NoSuchMedia => 1,
            Failure::NoCanvasSize => 3,
            Failure::UnknownFormat => 4,
            Failure::BadSize => 7,
        }
    }

    /// The exit status that the process ends with on this failure.
    pub fn exit_status(self) -> (code: u8)
        ensures
            code == self.status(),
    {
        match self {
            Failure::NoSuchMedia => 1,
            Failure::NoCanvasSize => 3,
            Failure::UnknownFormat => 4,
            Failure::BadSize => 7,
        }
    }
}

/// Every failure has an exit status of its own, and none has the status of
/// a clean exit.
pub proof fn lemma_statuses_differ(a: Failure, b: Failure)
    ensures
        a.status() != 0,
        a != b ==> a.status() != b.status(),
{
}

/// The canvas height in rows: the height that was asked for, where one was;
/// otherwise the terminal's height, or half its width where that is less,
/// `terminal` being the terminal's width and height.
pub open spec fn canvas_rows(size: Option<Seq<u8>>, terminal: Option<(u16, u16)>) -> Result<
    u32,
    Failure,
> {
    match size {
        Some(text) => match unsigned_value(text) {
            Some(rows) => Ok(rows),
            None => Err(Failure::BadSize),
        },
        None => match terminal {
            Some((width, height)) => Ok(
                if height <= width / 2 {
                    height as u32
                } else {
                    (width / 2) as u32
                },
            ),
            None => Err(Failure::NoCanvasSize),
        },
    }
}

/// The canvas height in rows, from the height that was asked for, if any,
/// and the terminal's width and height, if they are known.
pub fn canvas_height(size: Option<&str>, terminal: Option<(u16, u16)>) -> (rows: Result<
    u32,
    Failure,
>)
    ensures
        rows == canvas_rows(
            match size {
                Some(text) => Some(text.spec_bytes()),
                None => None,
            },
            terminal,
        ),
{
    match size {
        Some(text) => match parse_u32(text.as_bytes()) {
            Some(rows) => Ok(rows),
            None => Err(Failure::BadSize),
        },
        None => match terminal {
            Some((width, height)) => {
                let half: u16 = width / 2;
                if height <= half {
                    Ok(height as u32)
                } else {
                    Ok(half as u32)
                }
            },
            None => Err(Failure::NoCanvasSize),
        },
    }
}

/// The longest ending of `s` that holds no `stop`: what follows the last
/// `stop`, or all of `s` where there is none.
pub open spec fn tail_after(s: Seq<u8>, stop: u8) -> Seq<u8>
    decreases s.len(),
{
    if s.len() == 0 || s.last() == stop {
        Seq::empty()
    } else {
        tail_after(s.drop_last(), stop).push(s.last())
    }
}

/// The extension of a path: what follows its last point, or the whole path
/// where it has none.
pub open spec fn extension(path: Seq<u8>) -> Seq<u8> {
    tail_after(path, POINT)
}

/// The three bytes of a three-letter extension.
pub open spec fn ext3(a: char, b: char, c: char) -> Seq<u8> {
    seq![a as u8, b as u8, c as u8]
}

/// Whether files with the extension `ext` are played as videos. Upper and
/// lower case are told apart.
pub open spec fn video_extension(ext: Seq<u8>) -> bool {
    ||| ext == ext3('g', 'i', 'f')
    ||| ext == ext3('a', 'v', 'i')
    ||| ext == ext3('m', 'p', '4')
    ||| ext == ext3('m', 'k', 'v')
    ||| ext == ext3('m', '2', 'v')
    ||| ext == ext3('o', 'g', 'g')
    ||| ext == ext3('o', 'g', 'v')
    ||| ext == ext3('a', 'a', 'c')
    ||| ext == ext3('a', 'a', 'x')
    ||| ext == ext3('m', 'o', 'v')
    ||| ext == ext3('w', 'm', 'v')
    ||| ext == ext3('m', '4', 'p')
    ||| ext == ext3('f', '4', 'v')
    ||| ext == ext3('s', 'w', 'f')
    ||| ext == ext3('y', 'u', 'v')
    ||| ext == ext3('a', 'm', 'v')
    ||| ext == ext3('m', '4', 'v')
    ||| ext == ext3('3', 'g', 'p')
    ||| ext == ext3('3', 'g', '2')
    ||| ext == ext3('n', 's', 'v')
    ||| ext == seq!['w' as u8, 'e' as u8, 'b' as u8, 'm' as u8]
    ||| ext == seq!['a' as u8, 'v' as u8, 'c' as u8, 'h' as u8, 'd' as u8]
}

/// The tail of `s` from `from` on holds no `stop`, and `s` begins there or
/// has a `stop` just before: then that tail is the longest ending without
/// one.
proof fn lemma_tail_after(s: Seq<u8>, stop: u8, from: int)
    requires
        0 <= from <= s.len(),
        forall|i: int| from <= i < s.len() ==> s[i] != stop,
        from == 0 || s[from - 1] == stop,
    ensures
        tail_after(s, stop) == s.skip(from),
    decreases s.len() - from,
{
    if from == s.len() {
        assert(s.skip(from) =~= Seq::<u8>::empty());
    } else {
        let shorter = s.drop_last();
        lemma_tail_after(shorter, stop, from);
        assert(s.skip(from) =~= shorter.skip(from).push(s.last()));
    }
}

/// Whether `s` is the three-letter extension `a`, `b`, `c`.
fn is3(s: &[u8], a: char, b: char, c: char) -> (same: bool)
    ensures
        same == (s@ == ext3(a, b, c)),
{
    if s.len() == 3 && s[0] == a as u8 && s[1] == b as u8 && s[2] == c as u8 {
        assert(s@ =~= ext3(a, b, c));
        true
    } else {
        proof {
            if s@ == ext3(a, b, c) {
                assert(s@[0] == a as u8 && s@[1] == b as u8 && s@[2] == c as u8);
            }
        }
        false
    }
}

/// Whether `ext` is one of the video extensions of three letters.
fn is_short_video_extension(ext: &[u8]) -> (video: bool)
    requires
        ext@.len() == 3,
    ensures
        video == video_extension(ext@),
{
    is3(ext, 'g', 'i', 'f') || is3(ext, 'a', 'v', 'i') || is3(ext, 'm', 'p', '4')
        || is3(ext, 'm', 'k', 'v') || is3(ext, 'm', '2', 'v') || is3(ext, 'o', 'g', 'g')
        || is3(ext, 'o', 'g', 'v') || is3(ext, 'a', 'a', 'c') || is3(ext, 'a', 'a', 'x')
        || is3(ext, 'm', 'o', 'v') || is3(ext, 'w', 'm', 'v') || is3(ext, 'm', '4', 'p')
        || is3(ext, 'f', '4', 'v') || is3(ext, 's', 'w', 'f') || is3(ext, 'y', 'u', 'v')
        || is3(ext, 'a', 'm', 'v') || is3(ext, 'm', '4', 'v') || is3(ext, '3', 'g', 'p')
        || is3(ext, '3', 'g', '2') || is3(ext, 'n', 's', 'v')
}

/// Whether the file at `path` is played as a video: whether its extension is
/// one of the video extensions.
pub fn is_video(path: &str) -> (video: bool)
    ensures
        video == video_extension(extension(path.spec_bytes())),
{
    let bytes = path.as_bytes();
    let mut from: usize = bytes.len();
    while from > 0 && bytes[from - 1] != POINT
        invariant
            from <= bytes@.len(),
            forall|i: int| from <= i < bytes@.len() ==> bytes@[i] != POINT,
        decreases from,
    {
        from -= 1;
    }
    proof {
        lemma_tail_after(bytes@, POINT, from as int);
    }
    let ext = slice_subrange(bytes, from, bytes.len());
    assert(ext@ == extension(path.spec_bytes()));
    let n: usize = ext.len();
    if n == 3 {
        is_short_video_extension(ext)
    } else if n == 4 {
        let same: bool = ext[0] == 'w' as u8 && ext[1] == 'e' as u8 && ext[2] == 'b' as u8 && ext[3]
            == 'm' as u8;
        proof {
            if same {
                assert(ext@ =~= seq!['w' as u8, 'e' as u8, 'b' as u8, 'm' as u8]);
            }
        }
        same
    } else if n == 5 {
        let same: bool = ext[0] == 'a' as u8 && ext[1] == 'v' as u8 && ext[2] == 'c' as u8 && ext[3]
            == 'h' as u8 && ext[4] == 'd' as u8;
        proof {
            if same {
                assert(ext@ =~= seq!['a' as u8, 'v' as u8, 'c' as u8, 'h' as u8, 'd' as u8]);
            }
        }
        same
    } else {
        false
    }
}

} // verus!
