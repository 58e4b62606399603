use waveform::columns::column_heights;
use waveform::WaveformError;

#[test]
fn fewer_magnitudes_than_columns_is_degenerate() {
    let mags: Vec<u64> = vec![1; 799];
    assert_eq!(column_heights(&mags, 16), Err(WaveformError::DegenerateInputError));
}

#[test]
fn empty_input_is_degenerate() {
    let mags: Vec<u64> = Vec::new();
    assert_eq!(column_heights(&mags, 16), Err(WaveformError::DegenerateInputError));
}

#[test]
fn one_magnitude_per_column_maps_each_coefficient() {
    // With exactly 800 magnitudes every column owns exactly one coefficient:
    // height(x) = mags[x] * 200 / 2^(bit_depth - 1), with no averaging.
    let mags: Vec<u64> = (0..800u64).map(|x| x * 7 % 3000).collect();
    let heights = column_heights(&mags, 9).unwrap();
    assert_eq!(heights.len(), 800);
    for x in 0..800usize {
        let expected = (mags[x] as u128) * 200 / 256;
        assert_eq!(heights[x], expected);
    }
}

#[test]
fn bucket_mean_over_full_buckets() {
    // 1600 magnitudes: two per column; the height comes from the bucket sum
    // (sum * 200) / (2 * 2^(bit_depth - 1)).
    let mags: Vec<u64> = (0..1600u64).collect();
    let heights = column_heights(&mags, 12).unwrap();
    for x in 0..800usize {
        let sum = (2 * x as u128) + (2 * x as u128 + 1);
        assert_eq!(heights[x], sum * 200 / (2 * 2048));
    }
}

#[test]
fn trailing_coefficients_are_dropped() {
    // 801 magnitudes still give one coefficient per column; the last one
    // feeds no bucket, however large it is.
    let mut mags: Vec<u64> = vec![256; 800];
    mags.push(u64::MAX);
    let heights = column_heights(&mags, 9).unwrap();
    for x in 0..800usize {
        assert_eq!(heights[x], 256 * 200 / 256);
    }
}

#[test]
fn zero_magnitudes_give_zero_heights() {
    let mags: Vec<u64> = vec![0; 44100];
    let heights = column_heights(&mags, 16).unwrap();
    assert!(heights.iter().all(|&h| h == 0));
}
