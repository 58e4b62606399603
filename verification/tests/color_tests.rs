use waveform::color::get_color;

#[test]
fn color_at_zero_height_is_green() {
    assert_eq!(get_color(0, 200), [0, 255, 0]);
}

#[test]
fn color_at_full_height_is_magenta() {
    assert_eq!(get_color(200, 200), [255, 0, 255]);
}

#[test]
fn color_at_half_height() {
    // R = round(255 * 0.5) = 128, G = round(255 * 0.5) = 128,
    // B = round(255 * 0.25) = 64.
    assert_eq!(get_color(100, 200), [128, 128, 64]);
}

#[test]
fn color_at_quarter_height() {
    // R = round(63.75) = 64, G = round(191.25) = 191, B = round(15.9375) = 16.
    assert_eq!(get_color(50, 200), [64, 191, 16]);
}

#[test]
fn color_monotone_over_all_heights() {
    // As the filled fraction grows, R + B never falls and G never rises.
    let mut prev = get_color(0, 200);
    for ph in 1..=200u64 {
        let cur = get_color(ph, 200);
        let prev_rb = prev[0] as u32 + prev[2] as u32;
        let cur_rb = cur[0] as u32 + cur[2] as u32;
        assert!(cur_rb >= prev_rb);
        assert!(cur[1] <= prev[1]);
        prev = cur;
    }
}

#[test]
fn color_never_black() {
    for ph in 0..=200u64 {
        assert_ne!(get_color(ph, 200), [0, 0, 0]);
    }
}
