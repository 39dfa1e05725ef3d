use dicomscan::resolution::calculate_acq_resolution;

fn resolution(m: &str, r: &str, c: &str, s: &str) -> String {
    calculate_acq_resolution(m.to_string(), r.to_string(), c.to_string(), s.to_string())
}

#[test]
fn resolution_square_quarter_millimetre_grid() {
    // field of view 0.9375 * 256 = 240 mm; 240 / 256 = 0.9375 mm per sample
    assert_eq!(
        resolution("0\\256\\256\\0", "256", "256", "0.9375\\0.9375"),
        "0.9375 x 0.9375 mm"
    );
}

#[test]
fn resolution_unparseable_matrix_is_na() {
    assert_eq!(resolution("garbage", "256", "256", "0.9375\\0.9375"), "N/A");
    assert_eq!(resolution("1\\2\\3\\4", "256", "256", "0.9375\\0.9375"), "N/A");
    assert_eq!(resolution("1\\2\\3", "256", "256", "0.9375\\0.9375"), "N/A");
}

#[test]
fn resolution_whole_millimetres() {
    assert_eq!(resolution("0\\2\\2\\0", "2", "2", "1\\1"), "1 x 1 mm");
    assert_eq!(resolution("0\\120\\120\\0", "240", "240", "0.5\\0.5"), "1 x 1 mm");
}

#[test]
fn resolution_zero_matrix_count_renders_inf() {
    assert_eq!(
        resolution("0\\0\\0\\0", "256", "256", "0.9375\\0.9375"),
        "inf x inf mm"
    );
}

#[test]
fn resolution_zero_over_zero_renders_nan() {
    assert_eq!(resolution("0\\0\\0\\0", "0", "0", "0\\0"), "NaN x NaN mm");
}

#[test]
fn resolution_unparseable_spacing_counts_as_zero() {
    assert_eq!(
        resolution("0\\256\\256\\0", "256", "256", "abc\\0.9375"),
        "0 x 0.9375 mm"
    );
}

#[test]
fn resolution_unparseable_rows_count_as_zero() {
    assert_eq!(
        resolution("0\\256\\256\\0", "abc", "256", "0.9375\\0.9375"),
        "0 x 0.9375 mm"
    );
}

#[test]
fn resolution_missing_second_spacing_counts_as_zero() {
    assert_eq!(
        resolution("0\\256\\256\\0", "256", "256", "0.9375"),
        "0.9375 x 0 mm"
    );
}

#[test]
fn resolution_truncates_to_eight_decimal_places() {
    // 1 / 3 truncated at eight decimal places
    assert_eq!(
        resolution("0\\3\\3\\0", "1", "1", "1\\1"),
        "0.33333333 x 0.33333333 mm"
    );
}

#[test]
fn resolution_negative_spacing_keeps_sign() {
    assert_eq!(
        resolution("0\\2\\2\\0", "2", "2", "-1\\1"),
        "-1 x 1 mm"
    );
}
