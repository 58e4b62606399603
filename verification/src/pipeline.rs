//! The whole rendering pipeline: transform magnitudes in, waveform raster out.
//!
//! `render_waveform` buckets the magnitudes into one bucket per column, maps
//! each bucket to a pixel height, and rasterizes the columns. Its contract
//! pins every pixel of the output as a function of the input alone, so the
//! pipeline is deterministic; `lemma_waveform_deterministic` states that in
//! so many words.

use vstd::prelude::*;
use vstd::arithmetic::div_mod::lemma_div_pos_is_pos;
use vstd::arithmetic::mul::lemma_mul_strictly_positive;
use vstd::arithmetic::power2::lemma_pow2_pos;
use crate::color::color_of;
use crate::columns::{column_height, column_heights, max_amplitude, sum_range};
use crate::raster::{
    image_dims, image_pixels, lemma_column_colored_rows, pixel_domain, render_columns,
    rendered_pixel, Raster,
};
use crate::{WaveformError, IMAGE_HEIGHT, IMAGE_WIDTH};

verus! {

/// The pixel the finished waveform image holds at `(x, y)`: the column's
/// color on the bottom `column_height(mags, bit_depth, x)` rows, the black
/// default fill above them.
pub open spec fn waveform_pixel(mags: Seq<u64>, bit_depth: u16, x: int, y: int) -> (u8, u8, u8) {
    let h = column_height(mags, bit_depth, x);
    if (IMAGE_HEIGHT as int) - h <= y {
        color_of(h, IMAGE_HEIGHT as int)
    } else {
        (0u8, 0u8, 0u8)
    }
}

/// The pipeline relation: `img` is exactly the waveform image of the given
/// magnitudes at the given bit depth — the fixed dimensions, one pixel per
/// coordinate, each pixel as `waveform_pixel` says, and every column height
/// inside the raster.
pub open spec fn waveform_image_ok(mags: Seq<u64>, bit_depth: u16, img: Raster) -> bool {
    &&& mags.len() >= IMAGE_WIDTH
    &&& forall|x: int|
        0 <= x < IMAGE_WIDTH as int ==> #[trigger] column_height(mags, bit_depth, x)
            <= IMAGE_HEIGHT
    &&& image_dims(img) == (IMAGE_WIDTH as int, IMAGE_HEIGHT as int)
    &&& image_pixels(img).dom() == pixel_domain(IMAGE_WIDTH as int, IMAGE_HEIGHT as int)
    &&& forall|x: int, y: int|
        0 <= x < IMAGE_WIDTH as int && 0 <= y < IMAGE_HEIGHT as int
            ==> #[trigger] image_pixels(img)[(x, y)] == waveform_pixel(mags, bit_depth, x, y)
}

/// Renders the waveform image of the given transform magnitudes.
///
/// Fewer magnitudes than columns leave some column without a bucket: that is
/// reported as degenerate. A column height over the image height cannot be
/// drawn: that is reported as out of range, not clamped. On every other input
/// the image is produced, and each error comes exactly when its condition
/// holds.
pub fn render_waveform(magnitudes: &Vec<u64>, bit_depth: u16) -> (r: Result<
    Raster,
    WaveformError,
>)
    requires
        1 <= bit_depth <= 128,
    ensures
        match r {
            Ok(img) => waveform_image_ok(magnitudes@, bit_depth, img),
            Err(WaveformError::DegenerateInputError) => magnitudes@.len() < IMAGE_WIDTH,
            Err(WaveformError::OutOfRangeError) => {
                &&& magnitudes@.len() >= IMAGE_WIDTH
                &&& exists|x: int|
                    0 <= x < IMAGE_WIDTH as int && #[trigger] column_height(
                        magnitudes@,
                        bit_depth,
                        x,
                    ) > IMAGE_HEIGHT
            },
        },
{
    let heights = match column_heights(magnitudes, bit_depth) {
        Ok(hs) => hs,
        Err(e) => {
            return Err(e);
        },
    };
    match render_columns(&heights) {
        Ok(img) => {
            proof {
                assert forall|x: int|
                    0 <= x < IMAGE_WIDTH as int implies #[trigger] column_height(
                    magnitudes@,
                    bit_depth,
                    x,
                ) <= IMAGE_HEIGHT by {
                    assert(heights@[x] == column_height(magnitudes@, bit_depth, x));
                    assert(heights@[x] <= IMAGE_HEIGHT);
                }
                assert forall|x: int, y: int|
                    0 <= x < IMAGE_WIDTH as int && 0 <= y
                        < IMAGE_HEIGHT as int implies #[trigger] image_pixels(img)[(x, y)]
                    == waveform_pixel(magnitudes@, bit_depth, x, y) by {
                    assert(heights@[x] == column_height(magnitudes@, bit_depth, x));
                    assert(image_pixels(img)[(x, y)] == rendered_pixel(heights@, x, y));
                }
            }
            Ok(img)
        },
        Err(e) => Err(e),
    }
}

/// Determinism: the waveform image of given magnitudes and bit depth is
/// unique — two images that both stand in the pipeline relation for the same
/// input agree on their dimensions and on every pixel. Rendering the same
/// input twice thus overwrites an earlier output with identical pixels.
pub proof fn lemma_waveform_deterministic(
    mags: Seq<u64>,
    bit_depth: u16,
    img1: Raster,
    img2: Raster,
)
    requires
        waveform_image_ok(mags, bit_depth, img1),
        waveform_image_ok(mags, bit_depth, img2),
    ensures
        image_dims(img1) == image_dims(img2),
        image_pixels(img1) == image_pixels(img2),
{
    assert forall|p: (int, int)| #[trigger]
        image_pixels(img1).dom().contains(p) implies image_pixels(img1)[p] == image_pixels(
        img2,
    )[p] by {
        assert(pixel_domain(IMAGE_WIDTH as int, IMAGE_HEIGHT as int).contains(p));
        assert(p == (p.0, p.1));
        assert(image_pixels(img1)[(p.0, p.1)] == waveform_pixel(mags, bit_depth, p.0, p.1));
        assert(image_pixels(img2)[(p.0, p.1)] == waveform_pixel(mags, bit_depth, p.0, p.1));
    }
    assert(image_pixels(img1) =~= image_pixels(img2));
}

/// No column height is negative: a bucket sum of unsigned magnitudes divided
/// by the positive bucket size and amplitude stays at or above zero.
pub proof fn lemma_column_height_nonneg(mags: Seq<u64>, bit_depth: u16, x: int)
    requires
        mags.len() >= IMAGE_WIDTH,
    ensures
        column_height(mags, bit_depth, x) >= 0,
{
    let spp = crate::columns::samples_per_pixel(mags.len()) as int;
    lemma_sum_range_nonneg(mags, x * spp, (x + 1) * spp);
    lemma_pow2_pos((bit_depth - 1) as nat);
    lemma_mul_strictly_positive(spp, max_amplitude(bit_depth) as int);
    lemma_div_pos_is_pos(
        crate::columns::bucket_sum(mags, x) * (IMAGE_HEIGHT as int),
        spp * (max_amplitude(bit_depth) as int),
    );
    assert(crate::columns::bucket_sum(mags, x) * (IMAGE_HEIGHT as int) >= 0) by (nonlinear_arith)
        requires
            crate::columns::bucket_sum(mags, x) >= 0,
            IMAGE_HEIGHT as int == 200;
}

/// A sum over a range of unsigned magnitudes is never negative.
pub proof fn lemma_sum_range_nonneg(mags: Seq<u64>, lo: int, hi: int)
    ensures
        sum_range(mags, lo, hi) >= 0,
    decreases hi - lo,
{
    if lo < hi {
        lemma_sum_range_nonneg(mags, lo, hi - 1);
    }
}

/// In the waveform image, a row of column `x` differs from the black default
/// fill exactly when it is one of the column's bottom `column_height` rows:
/// each column's colored-row count equals its computed pixel height.
pub proof fn lemma_waveform_colored_rows(
    mags: Seq<u64>,
    bit_depth: u16,
    img: Raster,
    x: int,
    y: int,
)
    requires
        waveform_image_ok(mags, bit_depth, img),
        0 <= x < IMAGE_WIDTH as int,
        0 <= y < IMAGE_HEIGHT as int,
    ensures
        image_pixels(img)[(x, y)] != (0u8, 0u8, 0u8) <==> (IMAGE_HEIGHT as int) - column_height(
            mags,
            bit_depth,
            x,
        ) <= y,
{
    lemma_column_height_nonneg(mags, bit_depth, x);
    let h = column_height(mags, bit_depth, x);
    let hs = Seq::new(IMAGE_WIDTH as nat, |k: int| column_height(mags, bit_depth, k) as u128);
    assert(hs[x] == h);
    assert(image_pixels(img)[(x, y)] == waveform_pixel(mags, bit_depth, x, y));
    assert(waveform_pixel(mags, bit_depth, x, y) == rendered_pixel(hs, x, y));
    lemma_column_colored_rows(hs, x, y);
}

} // verus!
