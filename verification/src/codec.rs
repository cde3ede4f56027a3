//! The two jobs that are left to the `image` crate: decoding a picture and
//! resampling it. Nothing in this file is proved; each item says what is
//! taken on trust.

use vstd::prelude::*;

verus! {

/// The error type of the `image` crate. Nothing is known of its values.
#[verifier::external_type_specification]
#[verifier::external_body]
pub struct ExImageError(image::ImageError);

/// What resampling the `width` by `height` picture with the RGBA bytes
/// `data` to `nwidth` by `nheight` pixels gives, each new pixel taken from
/// the nearest old one: the RGBA bytes of the new picture.
pub uninterp spec fn resized_nearest(
    width: u32,
    height: u32,
    data: Seq<u8>,
    nwidth: u32,
    nheight: u32,
) -> Seq<u8>;

/// Calls `image::ImageFormat::from_path`, `image::load_from_memory_with_format`
/// and `DynamicImage::to_rgba8`: decodes the file contents `bytes` in the
/// format that the extension of `path` names, and hands back width, height
/// and RGBA bytes of the picture.
///
/// Trusted: nothing. Some decoders pick their arithmetic by the processor
/// they run on, so not even that the same file always gives the same pixels
/// is claimed.
#[verifier::external_body]
pub(crate) fn decode_rgba(path: &str, bytes: &[u8]) -> (raw: Result<
    (u32, u32, Vec<u8>),
    image::ImageError,
>) {
    let format = image::ImageFormat::from_path(path)?;
    let picture = image::load_from_memory_with_format(bytes, format)?.to_rgba8();
    Ok((picture.width(), picture.height(), picture.into_raw()))
}

/// Calls `image::imageops::resize` with `FilterType::Nearest`.
///
/// Trusted: the result depends on the arguments alone, so that it can be
/// given the name `resized_nearest`; it holds four bytes for each pixel of
/// the new size; and where the new size is the old one, it is a copy of the
/// old bytes. The call allocates one buffer of sixteen bytes for each pixel
/// of `width` by `nheight` and one of four bytes for each pixel of the new
/// size, and panics where either is more than a vector can hold: such sizes
/// are ruled out.
#[verifier::external_body]
pub(crate) fn resize_nearest(
    width: u32,
    height: u32,
    data: &[u8],
    nwidth: u32,
    nheight: u32,
) -> (out: Vec<u8>)
    requires
        data@.len() == 4 * (width * height),
        16 * (width * nheight) <= isize::MAX,
        4 * (nwidth * nheight) <= isize::MAX,
    ensures
        out@ == resized_nearest(width, height, data@, nwidth, nheight),
        out@.len() == 4 * (nwidth * nheight),
        nwidth == width && nheight == height ==> out@ == data@,
{
    let picture = image::ImageBuffer::<image::Rgba<u8>, &[u8]>::from_raw(width, height, data)
        .unwrap();
    image::imageops::resize(&picture, nwidth, nheight, image::imageops::FilterType::Nearest)
        .into_raw()
}

} // verus!
