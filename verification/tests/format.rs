use plotter_core::ticks::format_mark_value;

// Values are in ten-thousandths of a world unit.

#[test]
fn integral_value_gets_no_decimals() {
    assert_eq!(format_mark_value(50000), "5");
}

#[test]
fn tiny_value_gets_four_decimals() {
    assert_eq!(format_mark_value(50), "0.0050");
}

#[test]
fn mid_value_gets_one_decimal() {
    assert_eq!(format_mark_value(123400), "12.3");
}

#[test]
fn large_integral_value_gets_no_decimals() {
    assert_eq!(format_mark_value(1500000), "150");
}

#[test]
fn zero_is_plain() {
    assert_eq!(format_mark_value(0), "0");
}

#[test]
fn negative_integral_keeps_sign() {
    assert_eq!(format_mark_value(-50000), "-5");
}

#[test]
fn negative_tiny_keeps_sign() {
    assert_eq!(format_mark_value(-50), "-0.0050");
}

#[test]
fn negative_mid_value_rounds_like_positive() {
    assert_eq!(format_mark_value(-123400), "-12.3");
}

#[test]
fn one_decimal_rounds_halves_away_from_zero() {
    assert_eq!(format_mark_value(1500), "0.2");
    assert_eq!(format_mark_value(-1500), "-0.2");
}

#[test]
fn large_non_integral_rounds_to_whole() {
    assert_eq!(format_mark_value(12345678), "1235");
}
