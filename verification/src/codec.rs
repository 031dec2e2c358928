//! The calls into the `image` crate: format detection, decoding,
//! resampling and JPEG encoding. Nothing in this file is proved; each
//! contract states what the crate's source shows of the call.

use vstd::prelude::*;
use crate::format::known_format_name;
use crate::raster::valid_raster;

verus! {

/// The error type of the `image` crate, carried through unread.
#[verifier::external_type_specification]
#[verifier::external_body]
pub struct ExImageError(image::ImageError);

/// The variant name of the format that `image::guess_format` recognises at
/// the start of `bytes`, if it recognises one.
pub uninterp spec fn sniffed_format(bytes: Seq<u8>) -> Option<Seq<char>>;

/// The variant name of the format that `image::ImageFormat::from_extension`
/// assigns to a file name extension, if it assigns one.
pub uninterp spec fn extension_format(extension: Seq<char>) -> Option<Seq<char>>;

/// What `image::load_from_memory_with_format` makes of `bytes` when told
/// the format that `image::guess_format` finds in them: width, height and
/// the length of the RGB buffer, or nothing when no format is found or
/// decoding fails.
pub uninterp spec fn decoded_shape(bytes: Seq<u8>) -> Option<(u32, u32, nat)>;

/// What `image::load_from_memory_with_format` makes of `bytes` when told
/// the format of `extension`: width, height and the length of the RGB
/// buffer, or nothing when decoding fails.
pub uninterp spec fn decoded_shape_as(bytes: Seq<u8>, extension: Seq<char>) -> Option<
    (u32, u32, nat),
>;

/// The JPEG stream that `image::codecs::jpeg::JpegEncoder` writes for an
/// RGB image at a quality, or nothing when it refuses the image.
pub uninterp spec fn jpeg_stream(width: u32, height: u32, pixels: Seq<u8>, quality: u8) -> Option<
    Seq<u8>,
>;

/// The view of an optional string.
pub open spec fn name_view(name: Option<String>) -> Option<Seq<char>> {
    match name {
        Some(s) => Some(s@),
        None => None,
    }
}

/// The most source pixels that one pixel of a thumbnail may average: the
/// averaging adds up to 255 for each of them, and half their number, in 32
/// bits.
pub const MAX_BLOCK_PIXELS: u32 = 16_810_048;

/// A bound on the columns (or rows) of source pixels that one thumbnail
/// pixel averages when `side` columns are reduced to `target`. Where
/// `target` divides a `side` below `2^24`, single-precision arithmetic is
/// exact and every block spans `side / target`. Otherwise a block spans
/// less than the ratio plus one, plus the rounding error of that
/// arithmetic, which stays below `side / 2^21`; and never more than the
/// image has.
pub open spec fn block_span(side: nat, target: nat) -> nat {
    if side < 0x100_0000 && side % target == 0 {
        side / target
    } else {
        let span = side / target + side / 0x20_0000 + 2;
        if span < side {
            span
        } else {
            side
        }
    }
}

/// Calls `image::guess_format`, which compares the first bytes with the
/// signatures it knows, and hands back the variant name of the format
/// found. The result depends on the bytes alone, and every format the
/// function can find is one that a format tag names.
#[verifier::external_body]
pub(crate) fn guess_format_name(bytes: &[u8]) -> (r: Option<String>)
    ensures
        name_view(r) == sniffed_format(bytes@),
        r matches Some(name) ==> known_format_name(name@),
{
    match image::guess_format(bytes) {
        Ok(format) => Some(format!("{:?}", format)),
        Err(_) => None,
    }
}

/// Calls `image::ImageFormat::from_extension`, which looks the extension up
/// in a fixed table without regard to case, and hands back the variant
/// name of the format found. The result depends on the extension alone,
/// and every format in the table is one that a format tag names.
#[verifier::external_body]
pub(crate) fn extension_format_name(extension: &str) -> (r: Option<String>)
    ensures
        name_view(r) == extension_format(extension@),
        r matches Some(name) ==> known_format_name(name@),
{
    match image::ImageFormat::from_extension(extension) {
        Some(format) => Some(format!("{:?}", format)),
        None => None,
    }
}

/// Calls `image::guess_format` and then `image::load_from_memory_with_format`
/// with the format found, and flattens the result to 8-bit RGB. Neither
/// call consults anything but its arguments, so dimensions and buffer
/// length depend on the bytes alone; the pixel values are not specified.
#[verifier::external_body]
pub(crate) fn load_sniffed(bytes: &[u8]) -> (r: Result<(u32, u32, Vec<u8>), image::ImageError>)
    ensures
        r matches Ok(parts) ==> decoded_shape(bytes@) == Some((parts.0, parts.1, parts.2@.len())),
        r is Err ==> decoded_shape(bytes@) is None,
{
    let format = image::guess_format(bytes)?;
    let rgb = image::load_from_memory_with_format(bytes, format)?.into_rgb8();
    Ok((rgb.width(), rgb.height(), rgb.into_raw()))
}

/// Calls `image::load_from_memory_with_format` with the format that
/// `image::ImageFormat::from_extension` names, and flattens the result to
/// 8-bit RGB. The extension must be one that names a format. Dimensions
/// and buffer length depend on the arguments alone; the pixel values are
/// not specified.
#[verifier::external_body]
pub(crate) fn load_as(bytes: &[u8], extension: &str) -> (r: Result<
    (u32, u32, Vec<u8>),
    image::ImageError,
>)
    requires
        extension_format(extension@) is Some,
    ensures
        r matches Ok(parts) ==> decoded_shape_as(bytes@, extension@) == Some(
            (parts.0, parts.1, parts.2@.len()),
        ),
        r is Err ==> decoded_shape_as(bytes@, extension@) is None,
{
    let format = image::ImageFormat::from_extension(extension).expect("extension names a format");
    let rgb = image::load_from_memory_with_format(bytes, format)?.into_rgb8();
    Ok((rgb.width(), rgb.height(), rgb.into_raw()))
}

/// The text that the `image` crate gives for one of its errors.
#[verifier::external_body]
pub(crate) fn error_text(error: &image::ImageError) -> (r: String) {
    error.to_string()
}

/// Calls `image::DynamicImage::resize_exact` with the Lanczos3 filter on an
/// RGB image and hands back the pixels of the result, which has exactly
/// the dimensions asked for. The pixel values are not specified. The
/// resampler allocates an intermediate buffer of `width` columns and
/// `nheight` rows at 16 bytes a pixel, then the result, and panics where
/// either cannot be addressed.
#[verifier::external_body]
pub(crate) fn resize_exact_lanczos3(
    width: u32,
    height: u32,
    pixels: &Vec<u8>,
    nwidth: u32,
    nheight: u32,
) -> (r: Vec<u8>)
    requires
        valid_raster(width as nat, height as nat, pixels@.len()),
        nwidth > 0,
        nheight > 0,
        16 * width * nheight <= isize::MAX,
        3 * nwidth * nheight <= isize::MAX,
    ensures
        valid_raster(nwidth as nat, nheight as nat, r@.len()),
{
    let source = image::RgbImage::from_raw(width, height, pixels.clone()).expect("whole image");
    let filter = image::imageops::FilterType::Lanczos3;
    let out = image::DynamicImage::ImageRgb8(source).resize_exact(nwidth, nheight, filter);
    out.into_rgb8().into_raw()
}

/// Calls `image::DynamicImage::thumbnail_exact` on an RGB image and hands
/// back the pixels of the result, which has exactly the dimensions asked
/// for. The pixel values are not specified. The result is allocated before
/// it is filled, and the call panics where it cannot be addressed. Each
/// pixel of the result averages a block of source pixels whose values are
/// summed in 32 bits, so no block may hold more than [`MAX_BLOCK_PIXELS`];
/// [`block_span`] bounds the sides of every block.
#[verifier::external_body]
pub(crate) fn thumbnail_exact(
    width: u32,
    height: u32,
    pixels: &Vec<u8>,
    nwidth: u32,
    nheight: u32,
) -> (r: Vec<u8>)
    requires
        valid_raster(width as nat, height as nat, pixels@.len()),
        nwidth > 0,
        nheight > 0,
        3 * nwidth * nheight <= isize::MAX,
        block_span(width as nat, nwidth as nat) * block_span(height as nat, nheight as nat)
            <= MAX_BLOCK_PIXELS,
    ensures
        valid_raster(nwidth as nat, nheight as nat, r@.len()),
{
    let source = image::RgbImage::from_raw(width, height, pixels.clone()).expect("whole image");
    let out = image::DynamicImage::ImageRgb8(source).thumbnail_exact(nwidth, nheight);
    out.into_rgb8().into_raw()
}

/// Calls `image::codecs::jpeg::JpegEncoder::new_with_quality` and
/// `encode_image` on an RGB image, writing to memory. The encoder refuses
/// exactly the images with a side above 65535, and writing to memory cannot
/// fail. Its arithmetic is integer but for correctly rounded divisions in
/// single precision, so the stream depends on the arguments alone.
#[verifier::external_body]
pub(crate) fn encode_jpeg(width: u32, height: u32, pixels: &Vec<u8>, quality: u8) -> (r: Result<
    Vec<u8>,
    image::ImageError,
>)
    requires
        valid_raster(width as nat, height as nat, pixels@.len()),
    ensures
        r matches Ok(stream) ==> jpeg_stream(width, height, pixels@, quality) == Some(stream@),
        r is Err ==> jpeg_stream(width, height, pixels@, quality) is None,
        r is Ok == (width <= 65535 && height <= 65535),
{
    let source = image::RgbImage::from_raw(width, height, pixels.clone()).expect("whole image");
    let mut stream = Vec::new();
    image::codecs::jpeg::JpegEncoder::new_with_quality(&mut stream, quality).encode_image(&source)?;
    Ok(stream)
}

} // verus!
