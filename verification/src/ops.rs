//! The operations, from input bytes to output bytes or records.

use vstd::prelude::*;
use crate::codec::{
    decoded_shape, decoded_shape_as, encode_jpeg, error_text, extension_format,
    extension_format_name, guess_format_name, jpeg_stream, load_as, load_sniffed, name_view,
    sniffed_format, MAX_BLOCK_PIXELS,
};
use crate::error::ImageOpsError;
use crate::format::{label_of, tag_of, FormatTag};
use crate::raster::{valid_raster, RasterImage};
use crate::record::{MetadataRecord, MetadataView, ResizeReport};
use crate::request::{valid_quality, check_quality, ResizeRequest, ThumbnailRequest};
use crate::transform::{
    exceeds_memory, fits_bound, fitted_size, lemma_thumbnail_of_moderate_image, needs_resampling,
    resize, resizes_within, target_size, thumbnail, thumbnail_too_large,
};

verus! {

/// What is known of where input bytes came from.
pub enum OriginView {
    Stream,
    File(Option<Seq<char>>),
}

/// Where input bytes came from: a stream without a name, or a file whose
/// name may have an extension.
#[derive(Debug)]
pub enum Origin {
    /// An unnamed stream: the format is detected from the first bytes.
    Stream,
    /// A named file: the extension of its name, if it has one, governs the
    /// format.
    File(Option<String>),
}

impl View for Origin {
    type V = OriginView;

    open spec fn view(&self) -> OriginView {
        match self {
            Origin::Stream => OriginView::Stream,
            Origin::File(extension) => OriginView::File(name_view(*extension)),
        }
    }
}

/// The name of the format detected for input bytes: from the bytes for a
/// stream, from the extension for a file.
pub open spec fn detected_name(bytes: Seq<u8>, origin: OriginView) -> Option<Seq<char>> {
    match origin {
        OriginView::Stream => sniffed_format(bytes),
        OriginView::File(Some(extension)) => extension_format(extension),
        OriginView::File(None) => None,
    }
}

/// What decoding makes of input bytes: width, height and buffer length. A
/// stream is decoded as the format its first bytes show, a file as the
/// format of its extension, and not at all where neither names one.
pub open spec fn decoded(bytes: Seq<u8>, origin: OriginView) -> Option<(u32, u32, nat)> {
    match origin {
        OriginView::Stream => decoded_shape(bytes),
        OriginView::File(Some(extension)) => if extension_format(extension) is Some {
            decoded_shape_as(bytes, extension)
        } else {
            None
        },
        OriginView::File(None) => None,
    }
}

/// Whether input bytes yield an image: decoding succeeds and gives a
/// non-empty image whose buffer matches its dimensions.
pub open spec fn readable(bytes: Seq<u8>, origin: OriginView) -> bool {
    decoded(bytes, origin) matches Some(shape) && valid_raster(
        shape.0 as nat,
        shape.1 as nat,
        shape.2,
    )
}

/// Admits the outcome of a decoder: its error becomes a decode error, and
/// so does an image that is empty or whose buffer does not match its
/// dimensions.
pub fn admit_decoded(decoded: Result<(u32, u32, Vec<u8>), image::ImageError>) -> (r: Result<
    RasterImage,
    ImageOpsError,
>)
    ensures
        r is Ok <==> (decoded matches Ok(parts) && valid_raster(
            parts.0 as nat,
            parts.1 as nat,
            parts.2@.len(),
        )),
        r matches Ok(image) ==> (decoded matches Ok(parts) && image@.width == parts.0
            && image@.height == parts.1 && image@.pixels == parts.2@),
        r matches Err(e) ==> e is Decode,
{
    match decoded {
        Ok((width, height, pixels)) => {
            match RasterImage::new(width, height, pixels) {
                Some(image) => Ok(image),
                None => Err(ImageOpsError::Decode("image is empty or incomplete".to_owned())),
            }
        },
        Err(error) => Err(ImageOpsError::Decode(error_text(&error))),
    }
}

/// Decodes input bytes into an image and detects their format. Detection
/// does not depend on decoding: a tag may be found for bytes that fail to
/// decode, but only a successful decode reports it. The tag is `Unknown`
/// exactly where no format was detected.
pub fn read_image(bytes: &[u8], origin: &Origin) -> (r: Result<
    (RasterImage, FormatTag),
    ImageOpsError,
>)
    ensures
        r is Ok <==> readable(bytes@, origin@),
        r matches Ok(found) ==> (decoded(bytes@, origin@) matches Some(shape) && found.0@.width
            == shape.0 && found.0@.height == shape.1 && found.1 == tag_of(
            detected_name(bytes@, origin@),
        )),
        r matches Ok(found) ==> (found.1 == FormatTag::Unknown <==> detected_name(
            bytes@,
            origin@,
        ) is None),
        r matches Err(e) ==> e is Decode,
{
    match origin {
        Origin::Stream => {
            let name = guess_format_name(bytes);
            let tag = FormatTag::from_detected(&name);
            match admit_decoded(load_sniffed(bytes)) {
                Ok(image) => Ok((image, tag)),
                Err(e) => Err(e),
            }
        },
        Origin::File(Some(extension)) => {
            let name = extension_format_name(extension.as_str());
            let tag = FormatTag::from_detected(&name);
            if name.is_none() {
                return Err(ImageOpsError::Decode("image format could not be determined".to_owned()));
            }
            match admit_decoded(load_as(bytes, extension.as_str())) {
                Ok(image) => Ok((image, tag)),
                Err(e) => Err(e),
            }
        },
        Origin::File(None) => Err(
            ImageOpsError::Decode("image format could not be determined".to_owned()),
        ),
    }
}

/// Admits the outcome of the JPEG encoder: its error becomes an encode
/// error.
pub fn admit_encoded(encoded: Result<Vec<u8>, image::ImageError>) -> (r: Result<
    Vec<u8>,
    ImageOpsError,
>)
    ensures
        r is Ok <==> encoded is Ok,
        r matches Ok(stream) ==> (encoded matches Ok(given) && stream@ == given@),
        r matches Err(e) ==> e is Encode,
{
    match encoded {
        Ok(stream) => Ok(stream),
        Err(error) => Err(ImageOpsError::Encode(error_text(&error))),
    }
}

/// Encodes an image as JPEG at a quality in 1..=100. A quality outside
/// that range is refused, not clamped. The encoder holds sides of up to
/// 65535 pixels and refuses larger images.
pub fn write_jpeg(image: &RasterImage, quality: u8) -> (r: Result<Vec<u8>, ImageOpsError>)
    ensures
        r is Ok <==> valid_quality(quality) && image@.width <= 65535 && image@.height <= 65535,
        r matches Ok(stream) ==> jpeg_stream(
            image@.width as u32,
            image@.height as u32,
            image@.pixels,
            quality,
        ) == Some(stream@),
        r matches Err(e) ==> if valid_quality(quality) {
            e is Encode
        } else {
            e == ImageOpsError::InvalidQuality(quality)
        },
{
    match check_quality(quality) {
        Ok(()) => {},
        Err(e) => {
            return Err(e);
        },
    }
    let pixels = image.pixels();
    admit_encoded(encode_jpeg(image.width(), image.height(), pixels, quality))
}

/// The record that describes an image of a detected format.
pub open spec fn metadata_of(width: u32, height: u32, tag: FormatTag) -> MetadataView {
    MetadataView { width, height, format: label_of(tag), orientation: None }
}

/// Describes an image: its dimensions and the label of its format,
/// `unknown` where none was detected.
pub fn describe(image: &RasterImage, tag: FormatTag) -> (r: MetadataRecord)
    ensures
        r@ == metadata_of(image@.width as u32, image@.height as u32, tag),
        r@.format == "unknown"@ <==> tag == FormatTag::Unknown,
{
    MetadataRecord {
        width: image.width(),
        height: image.height(),
        format: tag.label(),
        orientation: None,
    }
}

/// The record that metadata extraction gives for input bytes, or nothing
/// where the bytes yield no image.
pub open spec fn metadata_result(bytes: Seq<u8>, origin: OriginView) -> Option<MetadataView> {
    if readable(bytes, origin) {
        let shape = decoded(bytes, origin)->0;
        Some(metadata_of(shape.0, shape.1, tag_of(detected_name(bytes, origin))))
    } else {
        None
    }
}

/// Reads an image and describes it. The format reads `unknown` exactly
/// where none was detected.
pub fn cmd_metadata(bytes: &[u8], origin: &Origin) -> (r: Result<MetadataRecord, ImageOpsError>)
    ensures
        match r {
            Ok(record) => metadata_result(bytes@, origin@) == Some(record@),
            Err(e) => metadata_result(bytes@, origin@) is None && e is Decode,
        },
        r matches Ok(record) ==> (record@.format == "unknown"@ <==> detected_name(
            bytes@,
            origin@,
        ) is None),
{
    match read_image(bytes, origin) {
        Ok((image, tag)) => Ok(describe(&image, tag)),
        Err(e) => Err(e),
    }
}

/// Metadata extraction is idempotent: two runs on the same bytes from the
/// same origin, each returning what [`cmd_metadata`] promises, return the
/// same record, or both none.
pub proof fn lemma_metadata_idempotent(
    bytes: Seq<u8>,
    origin: OriginView,
    first: Option<MetadataView>,
    second: Option<MetadataView>,
)
    requires
        first == metadata_result(bytes, origin),
        second == metadata_result(bytes, origin),
    ensures
        first == second,
{
}

/// How far an operation gets: the failure that ends it, or `Done`.
#[derive(Clone, Copy, Debug, PartialEq, Eq, Structural)]
pub enum Stage {
    InvalidParameter,
    InvalidQuality,
    Decode,
    TooLarge,
    Encode,
    Done,
}

/// The stage that an error ends an operation at.
pub open spec fn stage_of_error(error: ImageOpsError) -> Stage {
    match error {
        ImageOpsError::Decode(_) => Stage::Decode,
        ImageOpsError::Encode(_) => Stage::Encode,
        ImageOpsError::InvalidQuality(_) => Stage::InvalidQuality,
        ImageOpsError::InvalidParameter => Stage::InvalidParameter,
        ImageOpsError::TooLarge => Stage::TooLarge,
    }
}

/// The stage that a result stands for.
pub open spec fn stage_of<T>(result: Result<T, ImageOpsError>) -> Stage {
    match result {
        Ok(_) => Stage::Done,
        Err(error) => stage_of_error(error),
    }
}

/// The stage a resize of input bytes reaches. The parameters are checked
/// first, the side before the quality; then the bytes are decoded, the
/// image resampled where it has to be, and the result encoded.
pub open spec fn resize_stage(bytes: Seq<u8>, origin: OriginView, max_side: u32, quality: u8)
    -> Stage {
    if max_side == 0 {
        Stage::InvalidParameter
    } else if !valid_quality(quality) {
        Stage::InvalidQuality
    } else if !readable(bytes, origin) {
        Stage::Decode
    } else {
        let shape = decoded(bytes, origin)->0;
        let target = target_size(shape.0 as nat, shape.1 as nat, max_side as nat);
        if needs_resampling(shape.0 as nat, shape.1 as nat, max_side as nat) && exceeds_memory(
            shape.0 as nat,
            target.1,
        ) {
            Stage::TooLarge
        } else if target.0 > 65535 || target.1 > 65535 {
            Stage::Encode
        } else {
            Stage::Done
        }
    }
}

/// What a resize hands back: the JPEG stream and the dimensions before
/// and after.
#[derive(Debug)]
pub struct ResizeOutput {
    pub jpeg: Vec<u8>,
    pub report: ResizeReport,
}

/// Reads an image, fits it within `max_side` and encodes it as JPEG. The
/// report gives the dimensions read and the dimensions written. An image
/// within `max_side` is written with the dimensions it has; any other with
/// a longest side of `max_side` exactly and its aspect ratio kept. Whether
/// enlargement is allowed changes nothing: no image is ever enlarged.
pub fn cmd_resize(
    bytes: &[u8],
    origin: &Origin,
    max_side: u32,
    quality: u8,
    without_enlargement: bool,
) -> (r: Result<ResizeOutput, ImageOpsError>)
    ensures
        stage_of(r) == resize_stage(bytes@, origin@, max_side, quality),
        r matches Err(e) ==> (e is InvalidQuality ==> e == ImageOpsError::InvalidQuality(quality)),
        r matches Ok(out) ==> {
            let shape = decoded(bytes@, origin@)->0;
            let target = target_size(shape.0 as nat, shape.1 as nat, max_side as nat);
            &&& out.report == (ResizeReport {
                original_width: shape.0,
                original_height: shape.1,
                width: target.0 as u32,
                height: target.1 as u32,
            })
            &&& exists|pixels: Seq<u8>| #[trigger]
                jpeg_stream(target.0 as u32, target.1 as u32, pixels, quality) == Some(out.jpeg@)
        },
        ({
            let shape = decoded(bytes@, origin@)->0;
            max_side > 0 && readable(bytes@, origin@) ==> resizes_within(
                shape.0 as nat,
                shape.1 as nat,
                max_side as nat,
            )
        }),
        ({
            let shape = decoded(bytes@, origin@)->0;
            max_side > 0 && valid_quality(quality) && readable(bytes@, origin@) && shape.0 <= 65535
                && shape.1 <= 65535 && 16 * shape.0 * shape.1 <= isize::MAX ==> r is Ok
        }),
{
    proof {
        if max_side > 0 && readable(bytes@, origin@) {
            let shape = decoded(bytes@, origin@)->0;
            crate::transform::lemma_target_size(shape.0 as nat, shape.1 as nat, max_side as nat);
        }
    }
    let request = match ResizeRequest::new(max_side, quality, without_enlargement) {
        Ok(request) => request,
        Err(e) => {
            return Err(e);
        },
    };
    let (image, _) = match read_image(bytes, origin) {
        Ok(found) => found,
        Err(e) => {
            return Err(e);
        },
    };
    let original_width = image.width();
    let original_height = image.height();
    proof {
        let target = target_size(original_width as nat, original_height as nat, max_side as nat);
        assert(16 * original_width * target.1 <= 16 * original_width * original_height)
            by (nonlinear_arith)
            requires
                target.1 <= original_height,
                original_width >= 0,
        ;
    }
    let resized = match resize(image, &request) {
        Ok(resized) => resized,
        Err(e) => {
            return Err(e);
        },
    };
    let jpeg = match write_jpeg(&resized, quality) {
        Ok(jpeg) => jpeg,
        Err(e) => {
            return Err(e);
        },
    };
    let report = ResizeReport {
        original_width,
        original_height,
        width: resized.width(),
        height: resized.height(),
    };
    Ok(ResizeOutput { jpeg, report })
}

/// The stage a thumbnail of input bytes reaches. The parameters are
/// checked first, the size before the quality; then the bytes are decoded,
/// the image fitted into the box, and the result encoded.
pub open spec fn thumbnail_stage(bytes: Seq<u8>, origin: OriginView, size: u32, quality: u8)
    -> Stage {
    if size == 0 {
        Stage::InvalidParameter
    } else if !valid_quality(quality) {
        Stage::InvalidQuality
    } else if !readable(bytes, origin) {
        Stage::Decode
    } else {
        let shape = decoded(bytes, origin)->0;
        let fit = fitted_size(shape.0 as nat, shape.1 as nat, size as nat);
        if thumbnail_too_large(shape.0 as nat, shape.1 as nat, fit) {
            Stage::TooLarge
        } else if fit.0 > 65535 || fit.1 > 65535 {
            Stage::Encode
        } else {
            Stage::Done
        }
    }
}

/// Reads an image, fits it into a box of `size` x `size` pixels and
/// encodes it as JPEG. The longest side of the thumbnail is `size`, the
/// other side follows the aspect ratio and is at least one. An image of
/// moderate size always has its thumbnail: the refusals concern sizes that
/// memory or the averaging cannot hold, and boxes beyond the 65535 pixels
/// that a JPEG side can have.
pub fn cmd_thumbnail(bytes: &[u8], origin: &Origin, size: u32, quality: u8) -> (r: Result<
    Vec<u8>,
    ImageOpsError,
>)
    ensures
        stage_of(r) == thumbnail_stage(bytes@, origin@, size, quality),
        r matches Err(e) ==> (e is InvalidQuality ==> e == ImageOpsError::InvalidQuality(quality)),
        r matches Ok(jpeg) ==> {
            let shape = decoded(bytes@, origin@)->0;
            let fit = fitted_size(shape.0 as nat, shape.1 as nat, size as nat);
            exists|pixels: Seq<u8>| #[trigger]
                jpeg_stream(fit.0 as u32, fit.1 as u32, pixels, quality) == Some(jpeg@)
        },
        ({
            let shape = decoded(bytes@, origin@)->0;
            size > 0 && readable(bytes@, origin@) ==> fits_bound(
                shape.0 as nat,
                shape.1 as nat,
                size as nat,
            )
        }),
        ({
            let shape = decoded(bytes@, origin@)->0;
            0 < size <= 65535 && valid_quality(quality) && readable(bytes@, origin@) && shape.0
                * shape.1 <= MAX_BLOCK_PIXELS && 3 * size * size <= isize::MAX ==> r is Ok
        }),
{
    proof {
        if size > 0 && readable(bytes@, origin@) {
            let shape = decoded(bytes@, origin@)->0;
            crate::transform::lemma_fitted_size(shape.0 as nat, shape.1 as nat, size as nat);
        }
    }
    let request = match ThumbnailRequest::new(size, quality) {
        Ok(request) => request,
        Err(e) => {
            return Err(e);
        },
    };
    let (image, _) = match read_image(bytes, origin) {
        Ok(found) => found,
        Err(e) => {
            return Err(e);
        },
    };
    proof {
        let width = image@.width;
        let height = image@.height;
        if width * height <= MAX_BLOCK_PIXELS && 3 * size * size <= isize::MAX {
            lemma_thumbnail_of_moderate_image(width, height, size as nat);
        }
    }
    let thumb = match thumbnail(&image, &request) {
        Ok(thumb) => thumb,
        Err(e) => {
            return Err(e);
        },
    };
    write_jpeg(&thumb, quality)
}

} // verus!
