//! The parameters of the two transforming operations, validated once.

use vstd::prelude::*;
use crate::error::ImageOpsError;

verus! {

/// Least JPEG quality that is accepted.
pub const MIN_QUALITY: u8 = 1;

/// Greatest JPEG quality that is accepted.
pub const MAX_QUALITY: u8 = 100;

/// The longest side a resize aims at when none is given.
pub const DEFAULT_MAX_SIDE: u32 = 1024;

/// The JPEG quality of a resize when none is given.
pub const DEFAULT_RESIZE_QUALITY: u8 = 85;

/// The side of the thumbnail box when none is given.
pub const DEFAULT_THUMBNAIL_SIZE: u32 = 256;

/// The JPEG quality of a thumbnail when none is given.
pub const DEFAULT_THUMBNAIL_QUALITY: u8 = 80;

/// Whether a JPEG quality is one the encoder is given: out-of-range
/// values are refused, never clamped.
pub open spec fn valid_quality(quality: u8) -> bool {
    MIN_QUALITY <= quality <= MAX_QUALITY
}

/// Decides whether a JPEG quality is accepted.
pub fn check_quality(quality: u8) -> (r: Result<(), ImageOpsError>)
    ensures
        r is Ok <==> valid_quality(quality),
        r matches Err(e) ==> e == ImageOpsError::InvalidQuality(quality),
{
    if MIN_QUALITY <= quality && quality <= MAX_QUALITY {
        Ok(())
    } else {
        Err(ImageOpsError::InvalidQuality(quality))
    }
}

/// What a resize request holds.
pub struct ResizeRequestView {
    pub max_side: u32,
    pub quality: u8,
    pub without_enlargement: bool,
}

/// A request to fit an image within a longest side. The side is positive
/// and the quality lies in 1..=100.
#[derive(Clone, Copy, Debug)]
pub struct ResizeRequest {
    max_side: u32,
    quality: u8,
    without_enlargement: bool,
}

impl View for ResizeRequest {
    type V = ResizeRequestView;

    closed spec fn view(&self) -> ResizeRequestView {
        ResizeRequestView {
            max_side: self.max_side,
            quality: self.quality,
            without_enlargement: self.without_enlargement,
        }
    }
}

impl ResizeRequest {
    #[verifier::type_invariant]
    spec fn well_formed(self) -> bool {
        self.max_side > 0 && valid_quality(self.quality)
    }

    /// Validates the parameters of a resize: a zero side is an invalid
    /// parameter, and after that a quality outside 1..=100 is an invalid
    /// quality.
    pub fn new(max_side: u32, quality: u8, without_enlargement: bool) -> (r: Result<
        ResizeRequest,
        ImageOpsError,
    >)
        ensures
            r is Ok <==> max_side > 0 && valid_quality(quality),
            r matches Ok(request) ==> request@ == (ResizeRequestView {
                max_side,
                quality,
                without_enlargement,
            }),
            r matches Err(e) ==> if max_side == 0 {
                e == ImageOpsError::InvalidParameter
            } else {
                e == ImageOpsError::InvalidQuality(quality)
            },
    {
        if max_side == 0 {
            return Err(ImageOpsError::InvalidParameter);
        }
        match check_quality(quality) {
            Ok(()) => Ok(ResizeRequest { max_side, quality, without_enlargement }),
            Err(e) => Err(e),
        }
    }

    /// The longest side that the result may have, never zero.
    pub fn max_side(&self) -> (r: u32)
        ensures
            r == self@.max_side,
            r > 0,
    {
        proof {
            use_type_invariant(self);
        }
        self.max_side
    }

    /// The JPEG quality, within 1..=100.
    pub fn quality(&self) -> (r: u8)
        ensures
            r == self@.quality,
            valid_quality(r),
    {
        proof {
            use_type_invariant(self);
        }
        self.quality
    }

    /// Whether images within the side are to be left as they are.
    pub fn without_enlargement(&self) -> (r: bool)
        ensures
            r == self@.without_enlargement,
    {
        self.without_enlargement
    }
}

impl Default for ResizeRequest {
    fn default() -> (r: ResizeRequest)
        ensures
            r@ == (ResizeRequestView {
                max_side: DEFAULT_MAX_SIDE,
                quality: DEFAULT_RESIZE_QUALITY,
                without_enlargement: true,
            }),
    {
        ResizeRequest {
            max_side: DEFAULT_MAX_SIDE,
            quality: DEFAULT_RESIZE_QUALITY,
            without_enlargement: true,
        }
    }
}

/// What a thumbnail request holds.
pub struct ThumbnailRequestView {
    pub size: u32,
    pub quality: u8,
}

/// A request to shrink an image into a square box. The side of the box is
/// positive and the quality lies in 1..=100.
#[derive(Clone, Copy, Debug)]
pub struct ThumbnailRequest {
    size: u32,
    quality: u8,
}

impl View for ThumbnailRequest {
    type V = ThumbnailRequestView;

    closed spec fn view(&self) -> ThumbnailRequestView {
        ThumbnailRequestView { size: self.size, quality: self.quality }
    }
}

impl ThumbnailRequest {
    #[verifier::type_invariant]
    spec fn well_formed(self) -> bool {
        self.size > 0 && valid_quality(self.quality)
    }

    /// Validates the parameters of a thumbnail: a zero size is an invalid
    /// parameter, and after that a quality outside 1..=100 is an invalid
    /// quality.
    pub fn new(size: u32, quality: u8) -> (r: Result<ThumbnailRequest, ImageOpsError>)
        ensures
            r is Ok <==> size > 0 && valid_quality(quality),
            r matches Ok(request) ==> request@ == (ThumbnailRequestView { size, quality }),
            r matches Err(e) ==> if size == 0 {
                e == ImageOpsError::InvalidParameter
            } else {
                e == ImageOpsError::InvalidQuality(quality)
            },
    {
        if size == 0 {
            return Err(ImageOpsError::InvalidParameter);
        }
        match check_quality(quality) {
            Ok(()) => Ok(ThumbnailRequest { size, quality }),
            Err(e) => Err(e),
        }
    }

    /// The side of the bounding box, never zero.
    pub fn size(&self) -> (r: u32)
        ensures
            r == self@.size,
            r > 0,
    {
        proof {
            use_type_invariant(self);
        }
        self.size
    }

    /// The JPEG quality, within 1..=100.
    pub fn quality(&self) -> (r: u8)
        ensures
            r == self@.quality,
            valid_quality(r),
    {
        proof {
            use_type_invariant(self);
        }
        self.quality
    }
}

impl Default for ThumbnailRequest {
    fn default() -> (r: ThumbnailRequest)
        ensures
            r@ == (ThumbnailRequestView {
                size: DEFAULT_THUMBNAIL_SIZE,
                quality: DEFAULT_THUMBNAIL_QUALITY,
            }),
    {
        ThumbnailRequest { size: DEFAULT_THUMBNAIL_SIZE, quality: DEFAULT_THUMBNAIL_QUALITY }
    }
}

} // verus!
