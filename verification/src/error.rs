//! The ways an operation can fail.

use vstd::prelude::*;

verus! {

/// Why an operation failed. Nothing is retried or recovered: the first
/// failure ends the operation.
#[derive(Debug)]
pub enum ImageOpsError {
    /// The input bytes are not an image that can be decoded; the text says
    /// what the decoder found.
    Decode(String),
    /// The image cannot be written as JPEG; the text says why.
    Encode(String),
    /// The JPEG quality lies outside 1..=100.
    InvalidQuality(u8),
    /// The maximum side or the thumbnail size is zero.
    InvalidParameter,
    /// Resampling would need a buffer larger than memory can address.
    TooLarge,
}

} // verus!
