//! The two transforms: resize to a longest side, and thumbnail into a box.
//!
//! Both fit an image to a bound on its longest side, keeping the aspect
//! ratio: the longest side becomes the bound, the other side is scaled by
//! the same ratio and rounded, and no side vanishes. A resize only ever
//! shrinks; a thumbnail also grows a small image to its box.

use vstd::prelude::*;
use crate::codec::{block_span, resize_exact_lanczos3, thumbnail_exact, MAX_BLOCK_PIXELS};
use crate::error::ImageOpsError;
use crate::raster::{longest, RasterImage};
use crate::request::{ResizeRequest, ThumbnailRequest};
use crate::scale::{
    lemma_scaled_length_bound, lemma_scaled_length_close, lemma_scaled_length_shrinks,
    lemma_scaled_longest, scale_length, scaled_length,
};

verus! {

/// A side as an image can have it: itself, or one where it would vanish.
pub open spec fn at_least_one(side: nat) -> nat {
    if side == 0 {
        1
    } else {
        side
    }
}

/// The dimensions of an image fitted to `bound` on its longest side: each
/// side scaled by `bound / longest` and rounded, but never below one.
pub open spec fn fitted_size(width: nat, height: nat, bound: nat) -> (nat, nat) {
    let long = longest(width, height);
    (
        at_least_one(scaled_length(width, bound, long)),
        at_least_one(scaled_length(height, bound, long)),
    )
}

/// Whether an image has to be resampled to fit `max_side`: only when its
/// longest side exceeds it. An image within the side is never enlarged,
/// whatever the request says about enlargement.
pub open spec fn needs_resampling(width: nat, height: nat, max_side: nat) -> bool {
    longest(width, height) > max_side
}

/// The dimensions a resize gives: those of the image where it already
/// fits, else the image fitted to `max_side`.
pub open spec fn target_size(width: nat, height: nat, max_side: nat) -> (nat, nat) {
    if needs_resampling(width, height, max_side) {
        fitted_size(width, height, max_side)
    } else {
        (width, height)
    }
}

/// What holds of an image fitted to a bound: its longest side is on the
/// bound exactly, no side is below one, and it has the aspect ratio of the
/// image it came from to within rounding. Each side is less than one pixel
/// away from the exact `side * bound / longest`, and the longer side stays
/// the longer. Where the bound does not exceed the longest side, no side
/// grows.
pub open spec fn fits_bound(width: nat, height: nat, bound: nat) -> bool {
    let fit = fitted_size(width, height, bound);
    let long = longest(width, height);
    &&& longest(fit.0, fit.1) == bound
    &&& 1 <= fit.0 <= bound
    &&& 1 <= fit.1 <= bound
    &&& -long < fit.0 * long - width * bound < long
    &&& -long < fit.1 * long - height * bound < long
    &&& -long < fit.0 * height - fit.1 * width < long
    &&& width >= height ==> fit.0 >= fit.1
    &&& height >= width ==> fit.1 >= fit.0
    &&& bound <= long ==> fit.0 <= width && fit.1 <= height
}

/// Every fitted image meets [`fits_bound`].
pub proof fn lemma_fitted_size(width: nat, height: nat, bound: nat)
    requires
        0 < width <= u32::MAX,
        0 < height <= u32::MAX,
        0 < bound <= u32::MAX,
    ensures
        fits_bound(width, height, bound),
{
    let long = longest(width, height);
    let fit = fitted_size(width, height, bound);
    let across = scaled_length(width, bound, long);
    let down = scaled_length(height, bound, long);
    lemma_scaled_length_close(width, bound, long);
    lemma_scaled_length_close(height, bound, long);
    lemma_scaled_length_bound(width, bound, long);
    lemma_scaled_length_bound(height, bound, long);
    lemma_scaled_longest(bound, long);
    if bound <= long {
        lemma_scaled_length_shrinks(width, bound, long);
        lemma_scaled_length_shrinks(height, bound, long);
    }
    lemma_clamped_side_close(across, width, bound, long);
    lemma_clamped_side_close(down, height, bound, long);
    if width >= height {
        assert(fit.0 == bound);
        assert(fit.0 * height - fit.1 * width == -(fit.1 * long - height * bound))
            by (nonlinear_arith)
            requires
                fit.0 == bound,
                long == width,
        ;
    } else {
        assert(fit.1 == bound);
        assert(fit.0 * height - fit.1 * width == fit.0 * long - width * bound)
            by (nonlinear_arith)
            requires
                fit.1 == bound,
                long == height,
        ;
    }
}

/// A scaled side that is raised from zero to one stays less than one pixel
/// away from the exact ratio.
proof fn lemma_clamped_side_close(scaled: nat, side: nat, bound: nat, long: nat)
    requires
        side >= 1,
        bound >= 1,
        -long < scaled * long - side * bound < long,
    ensures
        -long < at_least_one(scaled) * long - side * bound < long,
{
    if scaled == 0 {
        assert(side * bound >= 1) by (nonlinear_arith)
            requires
                side >= 1,
                bound >= 1,
        ;
        assert(scaled * long == 0) by (nonlinear_arith)
            requires
                scaled == 0,
        ;
        assert(1 * long == long) by (nonlinear_arith);
    }
}

/// What holds of the dimensions a resize gives: an image that fits keeps
/// its own; any other gets a longest side of `max_side` exactly, each side
/// less than one pixel away from the exact `side * max_side / longest`.
/// Either way no side grows or vanishes, and the aspect ratio is kept to
/// within rounding.
pub open spec fn resizes_within(width: nat, height: nat, max_side: nat) -> bool {
    let target = target_size(width, height, max_side);
    let long = longest(width, height);
    &&& 1 <= target.0 <= width
    &&& 1 <= target.1 <= height
    &&& -long < target.0 * height - target.1 * width < long
    &&& width >= height ==> target.0 >= target.1
    &&& height >= width ==> target.1 >= target.0
    &&& !needs_resampling(width, height, max_side) ==> target == (width, height)
    &&& needs_resampling(width, height, max_side) ==> {
        &&& longest(target.0, target.1) == max_side
        &&& -long < target.0 * long - width * max_side < long
        &&& -long < target.1 * long - height * max_side < long
    }
}

/// Every resize meets [`resizes_within`].
pub proof fn lemma_target_size(width: nat, height: nat, max_side: nat)
    requires
        0 < width <= u32::MAX,
        0 < height <= u32::MAX,
        0 < max_side <= u32::MAX,
    ensures
        resizes_within(width, height, max_side),
{
    if needs_resampling(width, height, max_side) {
        lemma_fitted_size(width, height, max_side);
    } else {
        assert(width * height - height * width == 0) by (nonlinear_arith);
    }
}

/// Computes [`fitted_size`].
pub fn fit_dimensions(width: u32, height: u32, bound: u32) -> (r: (u32, u32))
    requires
        width > 0,
        height > 0,
    ensures
        (r.0 as nat, r.1 as nat) == fitted_size(width as nat, height as nat, bound as nat),
        r.0 >= 1,
        r.1 >= 1,
        bound > 0 ==> r.0 <= bound && r.1 <= bound && longest(r.0 as nat, r.1 as nat) == bound,
        0 < bound <= longest(width as nat, height as nat) ==> r.0 <= width && r.1 <= height,
{
    let long: u32 = if width >= height {
        width
    } else {
        height
    };
    proof {
        if bound > 0 {
            lemma_fitted_size(width as nat, height as nat, bound as nat);
        }
    }
    let scaled_width = scale_length(width, bound, long);
    let scaled_height = scale_length(height, bound, long);
    (
        if scaled_width == 0 {
            1
        } else {
            scaled_width
        },
        if scaled_height == 0 {
            1
        } else {
            scaled_height
        },
    )
}

/// Computes [`target_size`].
pub fn target_dimensions(width: u32, height: u32, max_side: u32) -> (r: (u32, u32))
    requires
        width > 0,
        height > 0,
    ensures
        (r.0 as nat, r.1 as nat) == target_size(width as nat, height as nat, max_side as nat),
        1 <= r.0 <= width,
        1 <= r.1 <= height,
        needs_resampling(width as nat, height as nat, max_side as nat) && max_side > 0 ==> longest(
            r.0 as nat,
            r.1 as nat,
        ) == max_side,
{
    let long: u32 = if width >= height {
        width
    } else {
        height
    };
    if long > max_side {
        let fit = fit_dimensions(width, height, max_side);
        proof {
            if max_side == 0 {
                lemma_scaled_length_bound(width as nat, 0, long as nat);
                lemma_scaled_length_bound(height as nat, 0, long as nat);
            }
        }
        fit
    } else {
        (width, height)
    }
}

/// Whether resampling a `width`-wide image to `target_height` rows would
/// need a working buffer beyond what memory can address: it holds sixteen
/// bytes for each pixel of `width` columns and `target_height` rows.
pub open spec fn exceeds_memory(width: nat, target_height: nat) -> bool {
    16 * width * target_height > isize::MAX
}

/// Fits an image within the longest side of a request, keeping its aspect
/// ratio. An image that already fits comes back unchanged. Otherwise it is
/// resampled with a Lanczos filter to [`target_size`]: its longest side
/// becomes `max_side`, its other side is scaled alike, and neither grows.
/// The one refusal is an image so large that the resampler's working
/// buffer could not be addressed.
pub fn resize(image: RasterImage, request: &ResizeRequest) -> (r: Result<RasterImage, ImageOpsError>)
    ensures
        !needs_resampling(image@.width, image@.height, request@.max_side as nat) ==> (r matches Ok(
            out,
        ) && out@ == image@),
        needs_resampling(image@.width, image@.height, request@.max_side as nat) ==> {
            let target = target_size(image@.width, image@.height, request@.max_side as nat);
            if exceeds_memory(image@.width, target.1) {
                r matches Err(e) && e == ImageOpsError::TooLarge
            } else {
                r matches Ok(out) && out@.width == target.0 && out@.height == target.1
            }
        },
        resizes_within(image@.width, image@.height, request@.max_side as nat),
{
    let width = image.width();
    let height = image.height();
    let max_side = request.max_side();
    proof {
        lemma_target_size(width as nat, height as nat, max_side as nat);
    }
    let max_current = image.longest_side();
    if request.without_enlargement() && max_current <= max_side {
        Ok(image)
    } else if max_current > max_side {
        let (nwidth, nheight) = target_dimensions(width, height, max_side);
        assert(16 * width * nheight <= 16 * 0xffff_ffff * 0xffff_ffff) by (nonlinear_arith)
            requires
                width <= 0xffff_ffff,
                nheight <= 0xffff_ffff,
        ;
        let needed: u128 = 16 * (width as u128) * (nheight as u128);
        if needed > isize::MAX as u128 {
            return Err(ImageOpsError::TooLarge);
        }
        assert(3 * nwidth * nheight <= 16 * width * nheight) by (nonlinear_arith)
            requires
                nwidth <= width,
                nheight >= 1,
        ;
        let pixels = resize_exact_lanczos3(width, height, image.pixels(), nwidth, nheight);
        Ok(RasterImage::assemble(nwidth, nheight, pixels))
    } else {
        Ok(image)
    }
}

/// Whether a thumbnail of `target` cannot be made of a `width` x `height`
/// image: the thumbnail could not be addressed in memory, or one of its
/// pixels may have to average more source pixels than can be summed.
pub open spec fn thumbnail_too_large(width: nat, height: nat, target: (nat, nat)) -> bool {
    ||| 3 * target.0 * target.1 > isize::MAX
    ||| block_span(width, target.0) * block_span(height, target.1) > MAX_BLOCK_PIXELS
}

/// A thumbnail can be made of every image of at most
/// [`MAX_BLOCK_PIXELS`] pixels, whatever its shape, in every box whose
/// full square can be addressed.
pub proof fn lemma_thumbnail_of_moderate_image(width: nat, height: nat, size: nat)
    requires
        0 < width <= u32::MAX,
        0 < height <= u32::MAX,
        0 < size <= u32::MAX,
        width * height <= MAX_BLOCK_PIXELS,
        3 * size * size <= isize::MAX,
    ensures
        !thumbnail_too_large(width, height, fitted_size(width, height, size)),
{
    let fit = fitted_size(width, height, size);
    lemma_fitted_size(width, height, size);
    assert(3 * fit.0 * fit.1 <= 3 * size * size) by (nonlinear_arith)
        requires
            0 <= fit.0 <= size,
            0 <= fit.1 <= size,
    ;
    let across = block_span(width, fit.0);
    let down = block_span(height, fit.1);
    vstd::arithmetic::div_mod::lemma_div_nonincreasing(width as int, fit.0 as int);
    vstd::arithmetic::div_mod::lemma_div_nonincreasing(height as int, fit.1 as int);
    assert(across * down <= width * height) by (nonlinear_arith)
        requires
            0 <= across <= width,
            0 <= down <= height,
    ;
}

/// Computes [`block_span`].
fn span_of_block(side: u32, target: u32) -> (r: u64)
    requires
        target > 0,
    ensures
        r == block_span(side as nat, target as nat),
        r <= side,
{
    if side < 0x100_0000 && side % target == 0 {
        proof {
            vstd::arithmetic::div_mod::lemma_div_nonincreasing(side as int, target as int);
        }
        return (side / target) as u64;
    }
    let span: u64 = (side / target) as u64 + (side / 0x20_0000) as u64 + 2;
    if span < side as u64 {
        span
    } else {
        side as u64
    }
}

/// Shrinks or grows an image to fit the square box of a request, keeping
/// its aspect ratio: the longest side of the result is the side of the
/// box, and the result is not cropped, so it is square only where the
/// image is. The refusals are a thumbnail too large for memory and a
/// reduction so steep that one of its pixels would average more source
/// pixels than can be summed.
pub fn thumbnail(image: &RasterImage, request: &ThumbnailRequest) -> (r: Result<
    RasterImage,
    ImageOpsError,
>)
    ensures
        ({
            let fit = fitted_size(image@.width, image@.height, request@.size as nat);
            if thumbnail_too_large(image@.width, image@.height, fit) {
                r matches Err(e) && e == ImageOpsError::TooLarge
            } else {
                r matches Ok(out) && out@.width == fit.0 && out@.height == fit.1
            }
        }),
        fits_bound(image@.width, image@.height, request@.size as nat),
{
    let width = image.width();
    let height = image.height();
    let size = request.size();
    proof {
        lemma_fitted_size(width as nat, height as nat, size as nat);
    }
    let (nwidth, nheight) = fit_dimensions(width, height, size);
    assert(3 * nwidth * nheight <= 3 * 0xffff_ffff * 0xffff_ffff) by (nonlinear_arith)
        requires
            nwidth <= 0xffff_ffff,
            nheight <= 0xffff_ffff,
    ;
    let needed: u128 = 3 * (nwidth as u128) * (nheight as u128);
    if needed > isize::MAX as u128 {
        return Err(ImageOpsError::TooLarge);
    }
    let across = span_of_block(width, nwidth);
    let down = span_of_block(height, nheight);
    assert(across * down <= 0xffff_ffff * 0xffff_ffff) by (nonlinear_arith)
        requires
            across <= 0xffff_ffff,
            down <= 0xffff_ffff,
    ;
    if across * down > MAX_BLOCK_PIXELS as u64 {
        return Err(ImageOpsError::TooLarge);
    }
    let pixels = thumbnail_exact(width, height, image.pixels(), nwidth, nheight);
    Ok(RasterImage::assemble(nwidth, nheight, pixels))
}

} // verus!
