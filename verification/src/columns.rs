//! The column aggregator and height mapper.
//!
//! The input magnitudes are partitioned into `IMAGE_WIDTH` contiguous buckets
//! of `samples_per_pixel = n / IMAGE_WIDTH` coefficients each (integer
//! division; up to `IMAGE_WIDTH - 1` trailing coefficients are dropped). Each
//! bucket is reduced to the mean of its magnitudes, normalized against the
//! theoretical maximum amplitude `2^(bit_depth - 1)`, and scaled to a pixel
//! height:
//!
//! `height(x) = floor(mean(bucket x) * IMAGE_HEIGHT / 2^(bit_depth - 1))`
//!
//! computed exactly over the integers as
//! `(bucket_sum * IMAGE_HEIGHT) / (samples_per_pixel * 2^(bit_depth - 1))`.

use vstd::prelude::*;
use vstd::arithmetic::div_mod::lemma_div_denominator;
use vstd::arithmetic::power2::{
    lemma2_to64, lemma2_to64_rest, lemma_pow2_adds, lemma_pow2_strictly_increases,
    lemma_pow2_unfold, pow2,
};
use crate::{WaveformError, IMAGE_HEIGHT, IMAGE_WIDTH};

verus! {

/// How many transform coefficients feed one output column.
pub open spec fn samples_per_pixel(n: nat) -> nat {
    n / (IMAGE_WIDTH as nat)
}

/// The largest amplitude a sample of the given bit depth can reach.
pub open spec fn max_amplitude(bit_depth: u16) -> nat {
    pow2((bit_depth - 1) as nat)
}

/// The sum of `mags[lo..hi]`.
pub open spec fn sum_range(mags: Seq<u64>, lo: int, hi: int) -> int
    decreases hi - lo,
{
    if lo >= hi {
        0
    } else {
        sum_range(mags, lo, hi - 1) + mags[hi - 1]
    }
}

/// The sum of the magnitudes in column `x`'s bucket.
pub open spec fn bucket_sum(mags: Seq<u64>, x: int) -> int {
    let spp = samples_per_pixel(mags.len()) as int;
    sum_range(mags, x * spp, (x + 1) * spp)
}

/// Column `x`'s pixel height: the bucket's mean magnitude, normalized by the
/// maximum amplitude and scaled to the image height, truncated toward zero.
pub open spec fn column_height(mags: Seq<u64>, bit_depth: u16, x: int) -> int {
    let spp = samples_per_pixel(mags.len()) as int;
    (bucket_sum(mags, x) * (IMAGE_HEIGHT as int)) / (spp * (max_amplitude(bit_depth) as int))
}

proof fn lemma_pow2_127_fits()
    ensures
        pow2(127) == 0x8000_0000_0000_0000_0000_0000_0000_0000,
{
    lemma2_to64();
    lemma2_to64_rest();
    lemma_pow2_adds(63, 64);
}

/// Computes `2^e` for `e <= 127`.
fn pow2_u128(e: u16) -> (r: u128)
    requires
        e <= 127,
    ensures
        r == pow2(e as nat),
        r >= 1,
{
    let mut r: u128 = 1;
    let mut i: u16 = 0;
    proof {
        lemma2_to64();
    }
    while i < e
        invariant
            i <= e <= 127,
            r == pow2(i as nat),
        decreases e - i,
    {
        proof {
            lemma_pow2_127_fits();
            lemma_pow2_strictly_increases(i as nat, 127);
            lemma_pow2_unfold((i + 1) as nat);
        }
        r = r * 2;
        i = i + 1;
    }
    proof {
        vstd::arithmetic::power2::lemma_pow2_pos(e as nat);
    }
    r
}

/// Computes the pixel height of every output column from the transform
/// magnitudes: the bucket mean over `2^(bit_depth - 1)`, scaled by the image
/// height and truncated. Inputs with fewer magnitudes than columns have no
/// full bucket and are rejected as degenerate.
///
/// The bit depth is capped by the widest integer the machine can take the
/// amplitude `2^(bit_depth - 1)` in.
pub fn column_heights(magnitudes: &Vec<u64>, bit_depth: u16) -> (r: Result<
    Vec<u128>,
    WaveformError,
>)
    requires
        1 <= bit_depth <= 128,
    ensures
        match r {
            Ok(hs) => {
                &&& magnitudes@.len() >= IMAGE_WIDTH
                &&& hs@.len() == IMAGE_WIDTH
                &&& forall|x: int|
                    0 <= x < IMAGE_WIDTH as int ==> #[trigger] hs@[x] == column_height(
                        magnitudes@,
                        bit_depth,
                        x,
                    )
            },
            Err(e) => {
                &&& e == WaveformError::DegenerateInputError
                &&& magnitudes@.len() < IMAGE_WIDTH
            },
        },
{
    let n = magnitudes.len();
    let spp = n / IMAGE_WIDTH;
    if spp == 0 {
        return Err(WaveformError::DegenerateInputError);
    }
    let amp: u128 = pow2_u128(bit_depth - 1);
    proof {
        lemma_pow2_127_fits();
        if bit_depth < 128 {
            lemma_pow2_strictly_increases((bit_depth - 1) as nat, 127);
        }
    }
    let mut heights: Vec<u128> = Vec::new();
    let mut x: usize = 0;
    while x < IMAGE_WIDTH
        invariant
            1 <= bit_depth <= 128,
            n == magnitudes@.len(),
            spp == samples_per_pixel(n as nat),
            spp >= 1,
            amp == max_amplitude(bit_depth),
            1 <= amp <= 0x8000_0000_0000_0000_0000_0000_0000_0000,
            x <= IMAGE_WIDTH,
            heights@.len() == x,
            forall|k: int|
                0 <= k < x ==> #[trigger] heights@[k] == column_height(magnitudes@, bit_depth, k),
        decreases IMAGE_WIDTH - x,
    {
        proof {
            assert(IMAGE_WIDTH * spp <= n);
            assert(x as int * spp as int + spp as int <= n as int) by (nonlinear_arith)
                requires
                    0 <= x as int <= 799,
                    0 <= spp as int,
                    800 * spp as int <= n as int;
        }
        let mut sum: u128 = 0;
        let mut i: usize = 0;
        while i < spp
            invariant
                n == magnitudes@.len(),
                spp >= 1,
                x < IMAGE_WIDTH,
                x * spp + spp <= n,
                i <= spp,
                sum == sum_range(magnitudes@, x as int * spp as int, x as int * spp as int + i),
                sum <= i * 0xffff_ffff_ffff_ffff,
            decreases spp - i,
        {
            proof {
                assert(sum + magnitudes@[x as int * spp as int + i] <= (i + 1)
                    * 0xffff_ffff_ffff_ffff < 0xffff_ffff_ffff_ffff_ffff_ffff_ffff_ffff_ffff_ffff)
                    by (nonlinear_arith)
                    requires
                        sum <= i * 0xffff_ffff_ffff_ffff,
                        magnitudes@[x as int * spp as int + i] <= 0xffff_ffff_ffff_ffff,
                        0 <= i < spp <= 0xffff_ffff_ffff_ffff;
            }
            sum = sum + magnitudes[x * spp + i] as u128;
            i = i + 1;
        }
        proof {
            assert((x as int + 1) * (spp as int) == x as int * spp as int + spp as int)
                by (nonlinear_arith);
            assert(sum == bucket_sum(magnitudes@, x as int));
            assert(spp <= 0xffff_ffff_ffff_ffffint / (IMAGE_WIDTH as int));
            assert(sum * (IMAGE_HEIGHT as int) < 0x4000_0000_0000_0000_0000_0000_0000_0000)
                by (nonlinear_arith)
                requires
                    sum <= spp * 0xffff_ffff_ffff_ffff,
                    0 <= spp <= 0xffff_ffff_ffff_ffffint / (IMAGE_WIDTH as int),
                    IMAGE_HEIGHT == 200 && IMAGE_WIDTH == 800;
        }
        let t: u128 = sum * (IMAGE_HEIGHT as u128);
        let q: u128 = t / amp;
        let ph: u128 = q / (spp as u128);
        proof {
            lemma_div_denominator(t as int, amp as int, spp as int);
            assert(amp as int * spp as int == spp as int * amp as int) by (nonlinear_arith);
            assert(ph == column_height(magnitudes@, bit_depth, x as int));
        }
        heights.push(ph);
        x = x + 1;
    }
    Ok(heights)
}

} // verus!
