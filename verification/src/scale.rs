//! Integer downscale factors.

use vstd::prelude::*;
use crate::extent::Extent;

verus! {

/// The share of the screen, in percent, that a window may take up.
pub const SCREEN_PERCENT: u32 = 90;

/// The factor by which `native` pixels are divided to fit within `bound`
/// pixels: `native / bound` rounded up, which is one when they already fit.
pub open spec fn scale_factor(bound: int, native: int) -> int {
    (native + bound - 1) / bound
}

/// The one factor applied to both axes: the larger of the two per-axis
/// factors, so that neither axis overflows its bound.
pub open spec fn uniform_scale_factor(bound: Extent, native: Extent) -> int {
    let horizontal = scale_factor(bound.width as int, native.width as int);
    let vertical = scale_factor(bound.height as int, native.height as int);
    if horizontal >= vertical {
        horizontal
    } else {
        vertical
    }
}

/// The part of a screen of the given extent that a window may cover.
pub open spec fn usable_part(screen: Extent) -> Extent {
    Extent {
        width: (screen.width * SCREEN_PERCENT / 100) as u32,
        height: (screen.height * SCREEN_PERCENT / 100) as u32,
    }
}

/// The extent of an image shown at the given downscale factor.
pub open spec fn scaled_down(native: Extent, scale: int) -> Extent {
    Extent {
        width: (native.width as int / scale) as u32,
        height: (native.height as int / scale) as u32,
    }
}

/// Computes the downscale factor for one axis.
pub fn calc_scale(max_size: u32, current_size: u32) -> (scale: u32)
    requires
        max_size > 0,
        current_size > 0,
    ensures
        scale == scale_factor(max_size as int, current_size as int),
        scale >= 1,
        current_size <= max_size ==> scale == 1,
        scale * max_size >= current_size,
        (scale - 1) * max_size < current_size,
        current_size / scale <= max_size,
{
    proof {
        lemma_scale_factor_is_ceiling(max_size as int, current_size as int);
        lemma_scale_factor_fits(max_size as int, current_size as int);
    }
    if max_size >= current_size {
        1
    } else {
        let quotient: u32 = current_size / max_size;
        if current_size % max_size == 0 {
            quotient
        } else {
            quotient + 1
        }
    }
}

/// Computes the factor applied to both axes of an image so that it fits
/// within `bound`.
pub fn uniform_scale(bound: Extent, native: Extent) -> (scale: u32)
    requires
        bound.valid(),
        native.valid(),
    ensures
        scale == uniform_scale_factor(bound, native),
        scale >= 1,
        scale * bound.width >= native.width,
        scale * bound.height >= native.height,
        (scale - 1) * bound.width < native.width || (scale - 1) * bound.height < native.height,
        native.width / scale <= bound.width,
        native.height / scale <= bound.height,
{
    let horizontal = calc_scale(bound.width, native.width);
    let vertical = calc_scale(bound.height, native.height);
    proof {
        lemma_uniform_scale_factor_fits(bound, native);
    }
    if horizontal >= vertical {
        horizontal
    } else {
        vertical
    }
}

/// Computes the part of a screen that a window may cover.
pub fn usable_extent(screen: Extent) -> (usable: Extent)
    ensures
        usable == usable_part(screen),
        usable.width <= screen.width,
        usable.height <= screen.height,
{
    Extent { width: percent_of(screen.width), height: percent_of(screen.height) }
}

fn percent_of(size: u32) -> (part: u32)
    ensures
        part == size * SCREEN_PERCENT / 100,
        part <= size,
{
    assert(size * SCREEN_PERCENT == size * 90) by (nonlinear_arith)
        requires
            SCREEN_PERCENT == 90,
    ;
    let wide: u64 = size as u64 * SCREEN_PERCENT as u64 / 100;
    wide as u32
}

/// Computes the extent of an image shown at the given downscale factor.
pub fn scaled_extent(native: Extent, scale: u32) -> (scaled: Extent)
    requires
        scale > 0,
    ensures
        scaled == scaled_down(native, scale as int),
        scaled.width * scale <= native.width < (scaled.width + 1) * scale,
        scaled.height * scale <= native.height < (scaled.height + 1) * scale,
        scaled.width <= native.width,
        scaled.height <= native.height,
{
    proof {
        lemma_scaled_down_is_floor(native, scale as int);
    }
    Extent { width: native.width / scale, height: native.height / scale }
}

/// The factor is the ceiling of `native / bound`: it is one when the native
/// size fits, that many bounds cover the native size, and one fewer does not.
pub proof fn lemma_scale_factor_is_ceiling(bound: int, native: int)
    requires
        0 < bound,
        0 < native,
    ensures
        native <= bound ==> scale_factor(bound, native) == 1,
        native > bound ==> scale_factor(bound, native) > 1,
        scale_factor(bound, native) >= 1,
        scale_factor(bound, native) <= native,
        scale_factor(bound, native) * bound >= native,
        (scale_factor(bound, native) - 1) * bound < native,
        native % bound == 0 ==> scale_factor(bound, native) == native / bound,
        native % bound != 0 ==> scale_factor(bound, native) == native / bound + 1,
{
    let f = scale_factor(bound, native);
    let q = native / bound;
    let r = native % bound;
    assert(native == q * bound + r && 0 <= r < bound && 0 <= q <= native
        && (q + 1) * bound == q * bound + bound
        && (q - 1) * bound == q * bound - bound
        && (r != 0 && q >= 1 ==> q < native)
        && (native <= bound && r != 0 ==> q == 0)
        && (native <= bound && r == 0 ==> q == 1)
        && (native > bound ==> q >= 1)
        && (native > bound && r == 0 ==> q >= 2)) by (nonlinear_arith)
        requires
            0 < bound,
            0 < native,
            q == native / bound,
            r == native % bound,
    ;
    assert(f == if r == 0 { q } else { q + 1 }) by (nonlinear_arith)
        requires
            0 < bound,
            native == q * bound + r,
            0 <= r < bound,
            f == (native + bound - 1) / bound,
    ;
}

/// No smaller positive factor covers the native size.
pub proof fn lemma_scale_factor_is_least(bound: int, native: int, other: int)
    requires
        0 < bound,
        0 < native,
        1 <= other,
        other * bound >= native,
    ensures
        scale_factor(bound, native) <= other,
{
    lemma_scale_factor_is_ceiling(bound, native);
    let f = scale_factor(bound, native);
    assert(f <= other) by (nonlinear_arith)
        requires
            0 < bound,
            (f - 1) * bound < native,
            other * bound >= native,
    ;
}

/// For a fixed bound the factor never decreases as the native size grows.
pub proof fn lemma_scale_factor_monotonic(bound: int, smaller: int, larger: int)
    requires
        0 < bound,
        0 < smaller <= larger,
    ensures
        scale_factor(bound, smaller) <= scale_factor(bound, larger),
{
    lemma_scale_factor_is_ceiling(bound, larger);
    lemma_scale_factor_is_least(bound, smaller, scale_factor(bound, larger));
}

/// Divided by its factor, or by any larger one, the native size is within
/// the bound.
pub proof fn lemma_scale_factor_fits(bound: int, native: int)
    requires
        0 < bound,
        0 < native,
    ensures
        forall|scale: int|
            scale >= scale_factor(bound, native) ==> 0 <= #[trigger] (native / scale) <= bound,
{
    lemma_scale_factor_is_ceiling(bound, native);
    let f = scale_factor(bound, native);
    assert forall|scale: int| scale >= f implies 0 <= #[trigger] (native / scale) <= bound by {
        assert(0 <= native / scale <= bound) by (nonlinear_arith)
            requires
                0 < bound,
                0 < native,
                1 <= f <= scale,
                f * bound >= native,
        ;
    }
}

/// The uniform factor is at least each per-axis factor, it covers the image
/// along both axes while one less would fail along one of them, and at it
/// the image is within the bound along both axes.
pub proof fn lemma_uniform_scale_factor_fits(bound: Extent, native: Extent)
    requires
        bound.valid(),
        native.valid(),
    ensures
        ({
            let uniform = uniform_scale_factor(bound, native);
            &&& 1 <= uniform <= u32::MAX
            &&& uniform >= scale_factor(bound.width as int, native.width as int)
            &&& uniform >= scale_factor(bound.height as int, native.height as int)
            &&& uniform * bound.width >= native.width
            &&& uniform * bound.height >= native.height
            &&& (uniform - 1) * bound.width < native.width || (uniform - 1) * bound.height
                < native.height
            &&& native.width as int / uniform <= bound.width
            &&& native.height as int / uniform <= bound.height
        }),
{
    let horizontal = scale_factor(bound.width as int, native.width as int);
    let vertical = scale_factor(bound.height as int, native.height as int);
    let uniform = uniform_scale_factor(bound, native);
    lemma_scale_factor_is_ceiling(bound.width as int, native.width as int);
    lemma_scale_factor_is_ceiling(bound.height as int, native.height as int);
    lemma_scale_factor_fits(bound.width as int, native.width as int);
    lemma_scale_factor_fits(bound.height as int, native.height as int);
    assert(uniform * bound.width >= horizontal * bound.width && uniform * bound.height >= vertical
        * bound.height) by (nonlinear_arith)
        requires
            uniform >= horizontal,
            uniform >= vertical,
            bound.width > 0,
            bound.height > 0,
    ;
}

/// No smaller positive factor covers the image along both axes.
pub proof fn lemma_uniform_scale_factor_is_least(bound: Extent, native: Extent, other: int)
    requires
        bound.valid(),
        native.valid(),
        1 <= other,
        other * bound.width >= native.width,
        other * bound.height >= native.height,
    ensures
        uniform_scale_factor(bound, native) <= other,
{
    lemma_scale_factor_is_least(bound.width as int, native.width as int, other);
    lemma_scale_factor_is_least(bound.height as int, native.height as int, other);
}

/// The extent shown at a factor is the native extent divided by it, rounded
/// down along each axis, and so no larger than the native extent.
pub proof fn lemma_scaled_down_is_floor(native: Extent, scale: int)
    requires
        0 < scale,
    ensures
        ({
            let scaled = scaled_down(native, scale);
            &&& scaled.width == native.width as int / scale
            &&& scaled.height == native.height as int / scale
            &&& scaled.width * scale <= native.width < (scaled.width + 1) * scale
            &&& scaled.height * scale <= native.height < (scaled.height + 1) * scale
            &&& scaled.width <= native.width
            &&& scaled.height <= native.height
        }),
{
    lemma_quotient_is_floor(native.width as int, scale);
    lemma_quotient_is_floor(native.height as int, scale);
}

proof fn lemma_quotient_is_floor(size: int, scale: int)
    by (nonlinear_arith)
    requires
        0 <= size,
        0 < scale,
    ensures
        0 <= size / scale <= size,
        (size / scale) * scale <= size < (size / scale + 1) * scale,
{
}

} // verus!
