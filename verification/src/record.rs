//! What the operations report besides pixels.

use vstd::prelude::*;

verus! {

/// What a metadata record holds.
pub struct MetadataView {
    pub width: u32,
    pub height: u32,
    pub format: Seq<char>,
    pub orientation: Option<u32>,
}

/// Dimensions and detected format of an image. The orientation is kept
/// for a later use and is always absent.
#[derive(Debug)]
pub struct MetadataRecord {
    pub width: u32,
    pub height: u32,
    pub format: String,
    pub orientation: Option<u32>,
}

impl View for MetadataRecord {
    type V = MetadataView;

    open spec fn view(&self) -> MetadataView {
        MetadataView {
            width: self.width,
            height: self.height,
            format: self.format@,
            orientation: self.orientation,
        }
    }
}

/// The dimensions of an image before and after a resize.
#[derive(Clone, Copy, Debug, PartialEq, Eq, Structural)]
pub struct ResizeReport {
    pub original_width: u32,
    pub original_height: u32,
    pub width: u32,
    pub height: u32,
}

} // verus!
