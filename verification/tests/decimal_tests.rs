use offer_normalizer::decimal::{dec_lt, dec_to_string, div_quot, int_to_string, parse_dec, u64_to_string};

#[test]
fn parse_plain_integer() {
    assert_eq!(parse_dec("30"), Some((30, 0)));
    assert_eq!(parse_dec("0"), Some((0, 0)));
    assert_eq!(parse_dec("100"), Some((100, 0)));
}

#[test]
fn parse_fraction() {
    assert_eq!(parse_dec("0.5"), Some((5, 1)));
    assert_eq!(parse_dec("10.25"), Some((1025, 2)));
    assert_eq!(parse_dec("007"), Some((7, 0)));
}

#[test]
fn parse_rejects_malformed() {
    assert_eq!(parse_dec(""), None);
    assert_eq!(parse_dec("abc"), None);
    assert_eq!(parse_dec("1.2.3"), None);
    assert_eq!(parse_dec(".5"), None);
    assert_eq!(parse_dec("5."), None);
    assert_eq!(parse_dec("-1"), None);
    assert_eq!(parse_dec("1e5"), None);
}

#[test]
fn parse_rejects_out_of_range() {
    // 20 nines: mantissa would pass 10^19.
    assert_eq!(parse_dec("99999999999999999999"), None);
    // 19 fraction digits: one past the fraction limit.
    assert_eq!(parse_dec("0.1234567890123456789"), None);
    // 18 fraction digits are accepted.
    assert_eq!(parse_dec("0.123456789012345678"), Some((123456789012345678, 18)));
}

#[test]
fn render_integer_and_fraction() {
    assert_eq!(dec_to_string(0, 0), "0");
    assert_eq!(dec_to_string(30, 0), "30");
    assert_eq!(dec_to_string(5, 1), "0.5");
    assert_eq!(dec_to_string(1025, 2), "10.25");
}

#[test]
fn render_trims_trailing_zeros() {
    assert_eq!(dec_to_string(5000000000000000000, 19), "0.5");
    assert_eq!(dec_to_string(1050, 2), "10.5");
    assert_eq!(dec_to_string(1000, 2), "10");
}

#[test]
fn render_negative_scale_appends_zeros() {
    assert_eq!(dec_to_string(5, -3), "5000");
    assert_eq!(dec_to_string(12, -1), "120");
}

#[test]
fn render_small_fraction_pads() {
    assert_eq!(dec_to_string(25, 6), "0.000025");
}

#[test]
fn signed_and_unsigned_rendering() {
    assert_eq!(int_to_string(0), "0");
    assert_eq!(int_to_string(90000000), "90000000");
    assert_eq!(int_to_string(-42), "-42");
    assert_eq!(u64_to_string(7), "7");
    assert_eq!(u64_to_string(18446744073709551615), "18446744073709551615");
}

#[test]
fn value_comparison_respects_scales() {
    // 0.5 < 1
    assert!(dec_lt(5, 1, 1, 0));
    // 10 is not below 10.0
    assert!(!dec_lt(10, 0, 100, 1));
    // 30 is not below 10
    assert!(!dec_lt(30, 0, 10, 0));
    // 5 < 10
    assert!(dec_lt(5, 0, 10, 0));
}

#[test]
fn quotient_reaches_nineteen_digits() {
    // 50 / 100: mantissa 5 * 10^18 after 19 extra digits.
    let q = div_quot(50, 100);
    assert_eq!(q, (5000000000000000000, 19));
    // 1 / 3: eighteen threes and a leading 3.
    let q = div_quot(1, 3);
    assert_eq!(q, (3333333333333333333, 19));
}
