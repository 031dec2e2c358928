//! Decoded images: a grid of 8-bit RGB pixels with known dimensions.

use vstd::prelude::*;

verus! {

/// Number of 8-bit channels that every pixel holds: red, green, blue.
pub const CHANNELS: u8 = 3;

/// What a raster image is: its dimensions and its pixel bytes, row by row.
pub struct RasterView {
    pub width: nat,
    pub height: nat,
    pub pixels: Seq<u8>,
}

/// Whether `length` bytes are exactly the pixels of a non-empty
/// `width` x `height` image.
pub open spec fn valid_raster(width: nat, height: nat, length: nat) -> bool {
    width > 0 && height > 0 && length == width * height * 3
}

/// A decoded image. Both dimensions are positive and the buffer holds
/// exactly `width * height` pixels of three bytes each.
#[derive(Debug)]
pub struct RasterImage {
    width: u32,
    height: u32,
    pixels: Vec<u8>,
}

impl View for RasterImage {
    type V = RasterView;

    closed spec fn view(&self) -> RasterView {
        RasterView {
            width: self.width as nat,
            height: self.height as nat,
            pixels: self.pixels@,
        }
    }
}

impl Clone for RasterImage {
    fn clone(&self) -> (r: RasterImage)
        ensures
            r@ == self@,
    {
        proof {
            use_type_invariant(self);
        }
        RasterImage { width: self.width, height: self.height, pixels: self.pixels.clone() }
    }
}

impl RasterImage {
    #[verifier::type_invariant]
    spec fn well_formed(self) -> bool {
        valid_raster(self.width as nat, self.height as nat, self.pixels@.len())
    }

    /// Builds an image from its parts, or nothing when the parts do not
    /// describe a non-empty image.
    pub fn new(width: u32, height: u32, pixels: Vec<u8>) -> (r: Option<RasterImage>)
        ensures
            r is Some <==> valid_raster(width as nat, height as nat, pixels@.len()),
            r is Some ==> r->0@ == (RasterView {
                width: width as nat,
                height: height as nat,
                pixels: pixels@,
            }),
    {
        if width == 0 || height == 0 {
            return None;
        }
        assert(width * height * 3 <= 0xffff_ffff * 0xffff_ffff * 3) by (nonlinear_arith)
            requires
                width <= 0xffff_ffff,
                height <= 0xffff_ffff,
        ;
        assert(width * height <= 0xffff_ffff * 0xffff_ffff) by (nonlinear_arith)
            requires
                width <= 0xffff_ffff,
                height <= 0xffff_ffff,
        ;
        let expected: u128 = (width as u128) * (height as u128) * 3;
        if pixels.len() as u128 != expected {
            return None;
        }
        Some(RasterImage { width, height, pixels })
    }

    /// Builds an image from parts known to describe one.
    pub(crate) fn assemble(width: u32, height: u32, pixels: Vec<u8>) -> (r: RasterImage)
        requires
            valid_raster(width as nat, height as nat, pixels@.len()),
        ensures
            r@ == (RasterView { width: width as nat, height: height as nat, pixels: pixels@ }),
    {
        RasterImage { width, height, pixels }
    }

    /// The width in pixels, never zero.
    pub fn width(&self) -> (r: u32)
        ensures
            r == self@.width,
            r > 0,
    {
        proof {
            use_type_invariant(self);
        }
        self.width
    }

    /// The height in pixels, never zero.
    pub fn height(&self) -> (r: u32)
        ensures
            r == self@.height,
            r > 0,
    {
        proof {
            use_type_invariant(self);
        }
        self.height
    }

    /// The longer of the two sides.
    pub fn longest_side(&self) -> (r: u32)
        ensures
            r == longest(self@.width, self@.height),
            r > 0,
    {
        proof {
            use_type_invariant(self);
        }
        if self.width >= self.height {
            self.width
        } else {
            self.height
        }
    }

    /// The pixel bytes, three per pixel, rows from top to bottom.
    pub fn pixels(&self) -> (r: &Vec<u8>)
        ensures
            r@ == self@.pixels,
            valid_raster(self@.width, self@.height, r@.len()),
    {
        proof {
            use_type_invariant(self);
        }
        &self.pixels
    }

    /// Gives up the image for its pixel bytes.
    pub fn into_pixels(self) -> (r: Vec<u8>)
        ensures
            r@ == self@.pixels,
            valid_raster(self@.width, self@.height, r@.len()),
    {
        proof {
            use_type_invariant(&self);
        }
        self.pixels
    }
}

/// The longer of two sides.
pub open spec fn longest(width: nat, height: nat) -> nat {
    if width >= height {
        width
    } else {
        height
    }
}

} // verus!
