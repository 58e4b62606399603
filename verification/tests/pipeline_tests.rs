use rustfft::num_complex::Complex;
use rustfft::FftPlanner;
use waveform::columns::column_heights;
use waveform::pipeline::render_waveform;
use waveform::raster::render_columns;
use waveform::WaveformError;
use waveform::{IMAGE_HEIGHT, IMAGE_WIDTH};

/// Magnitudes of the forward FFT of the given samples, truncated to integers,
/// the way a decoder front end hands them to the library.
fn fft_magnitudes(samples: &[i32]) -> Vec<u64> {
    let mut planner = FftPlanner::<f32>::new();
    let fft = planner.plan_fft_forward(samples.len());
    let mut buf: Vec<Complex<f32>> =
        samples.iter().map(|&s| Complex::new(s as f32, 0.0)).collect();
    fft.process(&mut buf);
    buf.iter().map(|c| c.norm() as u64).collect()
}

#[test]
fn silent_input_renders_default_fill_everywhere() {
    // One second of 16-bit silence at 44100 Hz: the spectrum is all zero, so
    // every column height is 0 and every pixel keeps the black default fill.
    let samples = vec![0i32; 44100];
    let mags = fft_magnitudes(&samples);
    assert!(mags.iter().all(|&m| m == 0));
    let img = render_waveform(&mags, 16).unwrap();
    let bytes = img.into_bytes();
    assert_eq!(bytes.len(), 3 * IMAGE_WIDTH * IMAGE_HEIGHT);
    assert!(bytes.iter().all(|&b| b == 0));
}

#[test]
fn sinusoid_peaks_stand_out() {
    // A pure sinusoid at bin 1000 of an 8192-sample window concentrates its
    // energy in two symmetric bins, 1000 and 7192, landing in columns 100 and
    // 719 (ten coefficients per column). Those columns must tower over the
    // mean of the rest.
    let n = 8192usize;
    let samples: Vec<i32> = (0..n)
        .map(|i| {
            let phase = 2.0 * std::f64::consts::PI * 1000.0 * (i as f64) / (n as f64);
            (10000.0 * phase.sin()) as i32
        })
        .collect();
    let mags = fft_magnitudes(&samples);
    let heights = column_heights(&mags, 16).unwrap();
    let peaks = [100usize, 719usize];
    let rest_sum: u128 =
        (0..800).filter(|x| !peaks.contains(x)).map(|x| heights[x]).sum();
    let rest_mean = rest_sum / 798;
    for &p in &peaks {
        assert!(heights[p] > rest_mean);
    }
}

#[test]
fn rendering_twice_gives_identical_bytes() {
    let samples: Vec<i32> = (0..4800).map(|i| (i % 97) - 48).collect();
    let mags = fft_magnitudes(&samples);
    let first = render_waveform(&mags, 16).unwrap().into_bytes();
    let second = render_waveform(&mags, 16).unwrap().into_bytes();
    assert_eq!(first, second);
}

#[test]
fn overloud_columns_are_out_of_range() {
    // At bit depth 1 the maximum amplitude is 1, so any sizable magnitude
    // pushes its column far over the image height.
    let mags: Vec<u64> = vec![1000; 800];
    assert!(matches!(render_waveform(&mags, 1), Err(WaveformError::OutOfRangeError)));
}

#[test]
fn degenerate_input_is_reported() {
    let mags: Vec<u64> = vec![5; 700];
    assert!(matches!(render_waveform(&mags, 16), Err(WaveformError::DegenerateInputError)));
}

#[test]
fn each_column_colors_exactly_its_height() {
    // Render known heights and count, per column, the rows that differ from
    // the default fill: the count must equal the height, colored from the
    // bottom up.
    let heights: Vec<u128> = (0..800u128).map(|x| x % 201).collect();
    let img = render_columns(&heights).unwrap();
    let bytes = img.into_bytes();
    for x in 0..IMAGE_WIDTH {
        let mut colored = 0usize;
        for y in 0..IMAGE_HEIGHT {
            let i = (y * IMAGE_WIDTH + x) * 3;
            let black = bytes[i] == 0 && bytes[i + 1] == 0 && bytes[i + 2] == 0;
            if !black {
                colored += 1;
                assert!(y >= IMAGE_HEIGHT - (heights[x] as usize));
            }
        }
        assert_eq!(colored, heights[x] as usize);
    }
}

#[test]
fn a_height_over_the_image_is_refused() {
    let mut heights: Vec<u128> = vec![0; 800];
    heights[400] = 201;
    assert_eq!(
        render_columns(&heights).map(|img| img.into_bytes()),
        Err(WaveformError::OutOfRangeError)
    );
}
