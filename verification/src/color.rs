//! The fixed color function: maps a column's pixel height, as a fraction of
//! the image height, to an RGB triple.
//!
//! For `percent = pixel_height / height` the channels are
//! `R = round(255 * percent)`, `G = round(255 * (1 - percent))` and
//! `B = round(255 * percent^2)`, each landing in `0..=255` because the
//! fraction lies in `[0, 1]`. The rounding is round-half-up, stated exactly
//! over the integers: `round(num / den) = (2 * num + den) / (2 * den)`.

use vstd::prelude::*;
use vstd::arithmetic::div_mod::lemma_div_is_ordered;

verus! {

/// `num / den` as a real number, rounded half-up to the nearest integer
/// (`den` must be positive for this to mean anything).
pub open spec fn round_ratio(num: int, den: int) -> int {
    (2 * num + den) / (2 * den)
}

/// The red channel: `round(255 * ph / h)`.
pub open spec fn red_level(ph: int, h: int) -> int {
    round_ratio(255 * ph, h)
}

/// The green channel: `round(255 * (1 - ph / h))`.
pub open spec fn green_level(ph: int, h: int) -> int {
    round_ratio(255 * (h - ph), h)
}

/// The blue channel: `round(255 * (ph / h)^2)`.
pub open spec fn blue_level(ph: int, h: int) -> int {
    round_ratio(255 * ph * ph, h * h)
}

/// The full RGB triple for a pixel height `ph` out of an image height `h`.
pub open spec fn color_of(ph: int, h: int) -> (u8, u8, u8) {
    (red_level(ph, h) as u8, green_level(ph, h) as u8, blue_level(ph, h) as u8)
}

/// Each channel stays in `0..=255` whenever `0 <= ph <= h`.
pub proof fn lemma_color_in_range(ph: int, h: int)
    requires
        0 <= ph <= h,
        0 < h,
    ensures
        0 <= red_level(ph, h) <= 255,
        0 <= green_level(ph, h) <= 255,
        0 <= blue_level(ph, h) <= 255,
{
    assert((2 * (255 * ph) + h) / (2 * h) <= 255) by (nonlinear_arith)
        requires
            0 <= ph <= h,
            0 < h;
    assert((2 * (255 * ph) + h) / (2 * h) >= 0) by (nonlinear_arith)
        requires
            0 <= ph,
            0 < h;
    assert((2 * (255 * (h - ph)) + h) / (2 * h) <= 255) by (nonlinear_arith)
        requires
            0 <= ph <= h,
            0 < h;
    assert((2 * (255 * (h - ph)) + h) / (2 * h) >= 0) by (nonlinear_arith)
        requires
            0 <= ph <= h,
            0 < h;
    assert((2 * (255 * ph * ph) + h * h) / (2 * (h * h)) <= 255) by (nonlinear_arith)
        requires
            0 <= ph <= h,
            0 < h;
    assert((2 * (255 * ph * ph) + h * h) / (2 * (h * h)) >= 0) by (nonlinear_arith)
        requires
            0 <= ph,
            0 < h;
}

/// The color law: as the filled fraction grows, red plus blue never falls
/// and green never rises.
pub proof fn lemma_color_monotone(ph1: int, ph2: int, h: int)
    requires
        0 <= ph1 <= ph2 <= h,
        0 < h,
    ensures
        red_level(ph1, h) + blue_level(ph1, h) <= red_level(ph2, h) + blue_level(ph2, h),
        green_level(ph2, h) <= green_level(ph1, h),
{
    lemma_div_is_ordered(2 * (255 * ph1) + h, 2 * (255 * ph2) + h, 2 * h);
    lemma_div_is_ordered(2 * (255 * (h - ph2)) + h, 2 * (255 * (h - ph1)) + h, 2 * h);
    assert(255 * ph1 * ph1 <= 255 * ph2 * ph2) by (nonlinear_arith)
        requires
            0 <= ph1 <= ph2;
    assert(0 < h * h) by (nonlinear_arith)
        requires
            0 < h;
    lemma_div_is_ordered(
        2 * (255 * ph1 * ph1) + h * h,
        2 * (255 * ph2 * ph2) + h * h,
        2 * (h * h),
    );
}

/// No pixel height in `0..=h` maps to pure black: at least one of the red and
/// green channels is positive, so drawn rows are always told apart from the
/// default fill.
pub proof fn lemma_color_not_black(ph: int, h: int)
    requires
        0 <= ph <= h,
        0 < h,
    ensures
        red_level(ph, h) > 0 || green_level(ph, h) > 0,
{
    if 510 * ph >= h {
        assert(2 * h <= 2 * (255 * ph) + h);
        lemma_div_is_ordered(2 * h, 2 * (255 * ph) + h, 2 * h);
        assert((2 * h) / (2 * h) == 1) by (nonlinear_arith)
            requires
                0 < h;
    } else {
        assert(2 * h <= 2 * (255 * (h - ph)) + h);
        lemma_div_is_ordered(2 * h, 2 * (255 * (h - ph)) + h, 2 * h);
        assert((2 * h) / (2 * h) == 1) by (nonlinear_arith)
            requires
                0 < h;
    }
}

/// Returns the RGB triple for a column whose drawn height is `pixel_height`
/// rows out of an image `height` rows tall.
///
/// The bound on `height` keeps every intermediate product inside `u128`; any
/// real raster's dimensions fit a `u32`.
pub fn get_color(pixel_height: u64, height: u64) -> (c: [u8; 3])
    requires
        0 < height <= u32::MAX,
        pixel_height <= height,
    ensures
        (c[0], c[1], c[2]) == color_of(pixel_height as int, height as int),
{
    let ph: u128 = pixel_height as u128;
    let h: u128 = height as u128;
    proof {
        lemma_color_in_range(pixel_height as int, height as int);
        assert(255 * (ph as int) * (ph as int) <= 255 * 0xffff_ffff * 0xffff_ffff)
            by (nonlinear_arith)
            requires
                0 <= ph <= 0xffff_ffff;
        assert(0 < (h as int) * (h as int) <= 0xffff_ffff * 0xffff_ffff) by (nonlinear_arith)
            requires
                0 < h <= 0xffff_ffff;
    }
    let r: u8 = ((2 * (255 * ph) + h) / (2 * h)) as u8;
    let g: u8 = ((2 * (255 * (h - ph)) + h) / (2 * h)) as u8;
    let b: u8 = ((2 * (255 * ph * ph) + h * h) / (2 * (h * h))) as u8;
    [r, g, b]
}

} // verus!
