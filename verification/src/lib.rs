//! Image operations: metadata extraction, aspect-preserving resize and
//! bounded-box thumbnails, with the dimension arithmetic proved correct.
//!
//! Every operation is a function of its input bytes and parameters; reading
//! and writing those bytes is left to the caller. Images are held as 8-bit
//! RGB: an alpha channel is dropped on decoding, not blended. Decoding,
//! resampling and JPEG encoding are the work of the `image` crate, reached
//! through the functions of [`codec`], whose contracts are taken on trust.
//!
//! A resize aims at the dimensions that double-precision arithmetic gives
//! for `side * (max_side / longest)`; [`binary64`] and [`scale`] compute
//! them in integers, bit for bit, and prove how close they stay to the
//! exact ratio.

pub mod binary64;
pub mod codec;
pub mod error;
pub mod format;
pub mod ops;
pub mod raster;
pub mod record;
pub mod request;
pub mod rounding;
pub mod scale;
pub mod transform;
