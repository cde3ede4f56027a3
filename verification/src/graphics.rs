//! Loading pictures and turning them into terminal output.

use vstd::prelude::*;
use crate::codec::{decode_rgba, resize_nearest, resized_nearest};
use crate::pixel::{Grid, PixelBuffer};
use crate::playback::{Effect, Event, Playback};
use crate::render::{render_bytes, rendered_bytes, RenderMode};
use crate::source::{scaled_size, target_size, FrameSource};

verus! {

/// Why a picture could not be shown.
#[derive(Clone, Copy, Debug, PartialEq, Eq, Structural)]
pub enum FrameError {
    /// The file is in no format that can be decoded.
    Undecodable,
    /// The picture has no rows, or is too large once it is scaled to the
    /// canvas.
    Unscalable,
}

/// The grid that the parts of a decoded picture make up, where they fit
/// together: where there are four bytes for each pixel.
pub open spec fn grid_of(width: u32, height: u32, data: Seq<u8>) -> Option<Grid> {
    if data.len() == 4 * (width * height) {
        Some(Grid { width: width as nat, height: height as nat, data })
    } else {
        None
    }
}

/// The grid that the decoder gave, where it gave a picture whose parts fit
/// together.
pub open spec fn decoded_grid(raw: Result<(u32, u32, Vec<u8>), image::ImageError>) -> Option<
    Grid,
> {
    match raw {
        Ok(parts) => grid_of(parts.0, parts.1, parts.2@),
        Err(_) => None,
    }
}

/// Whether the buffers needed to scale a picture `width` pixels wide to
/// `nwidth` by `nheight` pixels fit in memory: sixteen bytes for each pixel
/// of `width` by `nheight`, and four for each pixel of the new size.
pub open spec fn resizable(width: nat, nwidth: nat, nheight: nat) -> bool {
    16 * (width * nheight) <= isize::MAX && 4 * (nwidth * nheight) <= isize::MAX
}

/// The size at which a grid is drawn on a canvas of `canvas` rows, where
/// there is one and the picture can be scaled to it.
pub open spec fn drawn_size(g: Grid, canvas: u32, mode: RenderMode) -> Option<(u32, u32)> {
    match target_size(g.width, g.height, canvas as nat, mode) {
        Some((wide, tall)) => if resizable(g.width, wide as nat, tall as nat) {
            Some((wide, tall))
        } else {
            None
        },
        None => None,
    }
}

/// A grid scaled to `wide` by `tall` pixels.
pub open spec fn scaled(g: Grid, wide: u32, tall: u32) -> Grid {
    Grid {
        width: wide as nat,
        height: tall as nat,
        data: resized_nearest(g.width as u32, g.height as u32, g.data, wide, tall),
    }
}

/// What drawing a grid on a canvas of `canvas` rows gives: the bytes that
/// draw the grid scaled to its size on the canvas, where it has one.
pub open spec fn drawing(g: Grid, canvas: u32, mode: RenderMode) -> Result<Seq<u8>, FrameError> {
    match drawn_size(g, canvas, mode) {
        Some((wide, tall)) => Ok(rendered_bytes(scaled(g, wide, tall), mode)),
        None => Err(FrameError::Unscalable),
    }
}

/// The mode that the resolution switch stands for: half-pixel mode when it
/// is on.
pub open spec fn mode_of(res: bool) -> RenderMode {
    if res {
        RenderMode::HalfPixel
    } else {
        RenderMode::Full
    }
}

/// What showing a picture came to, with the bytes as a sequence.
pub open spec fn outcome(drawn: Result<Vec<u8>, FrameError>) -> Result<Seq<u8>, FrameError> {
    match drawn {
        Ok(out) => Ok(out@),
        Err(e) => Err(e),
    }
}

/// Makes a pixel buffer of what the decoder gave. A decoder error, and
/// parts that do not fit together, are `FrameError::Undecodable`.
pub fn buffer_from_decoded(raw: Result<(u32, u32, Vec<u8>), image::ImageError>) -> (loaded: Result<
    PixelBuffer,
    FrameError,
>)
    ensures
        match loaded {
            Ok(buffer) => decoded_grid(raw) == Some(buffer@),
            Err(e) => e == FrameError::Undecodable && decoded_grid(raw) is None,
        },
{
    match raw {
        Ok((width, height, data)) => match PixelBuffer::from_raw(width, height, data) {
            Some(buffer) => Ok(buffer),
            None => Err(FrameError::Undecodable),
        },
        Err(_) => Err(FrameError::Undecodable),
    }
}

/// Decodes the contents `bytes` of the picture file `path`; the format is
/// the one that the extension of `path` names. Whether the contents can be
/// decoded, and to which pixels, is the decoder's word: whatever picture it
/// gives comes back as a buffer, and its refusal as
/// `FrameError::Undecodable`.
pub fn load_image(path: &str, bytes: &[u8]) -> (loaded: Result<PixelBuffer, FrameError>)
    ensures
        match loaded {
            Ok(buffer) => buffer@.wf(),
            Err(e) => e == FrameError::Undecodable,
        },
{
    buffer_from_decoded(decode_rgba(path, bytes))
}

/// Scales a picture to `w` by `h` pixels, each new pixel taken from the
/// nearest old one.
pub fn resize_image(img: &PixelBuffer, w: u32, h: u32) -> (scaled_img: PixelBuffer)
    requires
        resizable(img@.width, w as nat, h as nat),
    ensures
        scaled_img@ == scaled(img@, w, h),
        scaled_img@.wf(),
        w == img@.width && h == img@.height ==> scaled_img@ == img@,
{
    let data = resize_nearest(img.width(), img.height(), img.as_raw(), w, h);
    PixelBuffer::from_raw(w, h, data).unwrap()
}

/// The bytes that draw a picture in full mode: one cell for each pixel. A
/// picture without rows or without columns gives no byte.
pub fn print_image(image: PixelBuffer) -> (out: Vec<u8>)
    ensures
        out@ == rendered_bytes(image@, RenderMode::Full),
        image@.width == 0 || image@.height == 0 ==> out@.len() == 0,
{
    render_bytes(&image, RenderMode::Full)
}

/// The bytes that draw a picture in half-pixel mode: one cell for each pair
/// of pixels in a column. A picture with fewer than two rows or without
/// columns gives no byte.
pub fn print_image_hpm(image: PixelBuffer) -> (out: Vec<u8>)
    ensures
        out@ == rendered_bytes(image@, RenderMode::HalfPixel),
        image@.width == 0 || image@.height < 2 ==> out@.len() == 0,
{
    render_bytes(&image, RenderMode::HalfPixel)
}

/// Whether the buffers needed to scale a picture fit in memory.
fn can_resize(width: u32, nwidth: u32, nheight: u32) -> (fits: bool)
    ensures
        fits == resizable(width as nat, nwidth as nat, nheight as nat),
{
    assert(width * nheight <= 0xffff_ffff * 0xffff_ffff) by (nonlinear_arith)
        requires
            width <= 0xffff_ffff,
            nheight <= 0xffff_ffff,
    ;
    assert(nwidth * nheight <= 0xffff_ffff * 0xffff_ffff) by (nonlinear_arith)
        requires
            nwidth <= 0xffff_ffff,
            nheight <= 0xffff_ffff,
    ;
    let limit: u128 = isize::MAX as u128;
    let work: u128 = 16 * ((width as u128) * (nheight as u128));
    let result: u128 = 4 * ((nwidth as u128) * (nheight as u128));
    work <= limit && result <= limit
}

/// Scales a picture to a canvas of `height` rows and draws it: in
/// half-pixel mode when `res` is set, in full mode otherwise.
pub fn draw_scaled(image: &PixelBuffer, height: u32, res: bool) -> (drawn: Result<
    Vec<u8>,
    FrameError,
>)
    ensures
        outcome(drawn) == drawing(image@, height, mode_of(res)),
{
    let mode = if res {
        RenderMode::HalfPixel
    } else {
        RenderMode::Full
    };
    match scaled_size(image.width(), image.height(), height, mode) {
        Some((wide, tall)) => {
            if can_resize(image.width(), wide, tall) {
                let fitted = resize_image(image, wide, tall);
                Ok(render_bytes(&fitted, mode))
            } else {
                Err(FrameError::Unscalable)
            }
        },
        None => Err(FrameError::Unscalable),
    }
}

/// Draws what the decoder gave on a canvas of `height` rows: the drawing of
/// the picture where the decoder gave one, `FrameError::Undecodable` where
/// it gave an error or parts that do not fit together.
pub fn draw_decoded(
    raw: Result<(u32, u32, Vec<u8>), image::ImageError>,
    height: u32,
    res: bool,
) -> (drawn: Result<Vec<u8>, FrameError>)
    ensures
        match decoded_grid(raw) {
            Some(g) => outcome(drawn) == drawing(g, height, mode_of(res)),
            None => drawn == Err::<Vec<u8>, FrameError>(FrameError::Undecodable),
        },
{
    match buffer_from_decoded(raw) {
        Ok(image) => draw_scaled(&image, height, res),
        Err(e) => Err(e),
    }
}

/// Decodes the contents `bytes` of the picture file `file`, scales the
/// picture to a canvas of `height` rows and returns the bytes that draw it.
/// Which picture the file holds is the decoder's word; what comes back, if
/// not `FrameError::Undecodable`, is the drawing of a well-formed picture.
pub fn process_image(file: &str, bytes: &[u8], height: u32, res: bool) -> (drawn: Result<
    Vec<u8>,
    FrameError,
>)
    ensures
        drawn != Err::<Vec<u8>, FrameError>(FrameError::Undecodable) ==> exists|g: Grid|
            g.wf() && #[trigger] drawing(g, height, mode_of(res)) == outcome(drawn),
{
    let raw = decode_rgba(file, bytes);
    let ghost picture = decoded_grid(raw);
    let drawn = draw_decoded(raw, height, res);
    proof {
        if drawn != Err::<Vec<u8>, FrameError>(FrameError::Undecodable) {
            let g = picture->0;
            assert(g.wf());
            assert(drawing(g, height, mode_of(res)) == outcome(drawn));
        }
    }
    drawn
}

/// One step of a session that streams its frames: each frame is extracted
/// when it is due.
pub fn process_video(session: &mut Playback, event: Event) -> (todo: Vec<Effect>)
    ensures
        final(session)@ == old(session)@.next(event),
        todo@ == old(session)@.effects(FrameSource::Streaming, event),
        final(session)@.wf(),
{
    session.step(FrameSource::Streaming, event)
}

/// One step of a session that prerenders its frames: all of them are
/// extracted before the first one is shown.
pub fn process_video_prerender(session: &mut Playback, event: Event) -> (todo: Vec<Effect>)
    ensures
        final(session)@ == old(session)@.next(event),
        todo@ == old(session)@.effects(FrameSource::Prerender, event),
        final(session)@.wf(),
{
    session.step(FrameSource::Prerender, event)
}

} // verus!
