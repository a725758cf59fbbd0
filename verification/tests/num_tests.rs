use seq_expand::num::{parse_dec_i32, render_int};

#[test]
fn renders_zero() {
    assert_eq!(render_int(0), "0");
}

#[test]
fn renders_positive_values() {
    assert_eq!(render_int(7), "7");
    assert_eq!(render_int(10), "10");
    assert_eq!(render_int(1234567890), "1234567890");
    assert_eq!(render_int(i32::MAX), "2147483647");
}

#[test]
fn renders_negative_values() {
    assert_eq!(render_int(-1), "-1");
    assert_eq!(render_int(-305), "-305");
    assert_eq!(render_int(i32::MIN), "-2147483648");
}

#[test]
fn parses_plain_decimal() {
    assert_eq!(parse_dec_i32("0"), Some(0));
    assert_eq!(parse_dec_i32("42"), Some(42));
    assert_eq!(parse_dec_i32("2147483647"), Some(2147483647));
}

#[test]
fn parses_leading_zeros() {
    assert_eq!(parse_dec_i32("007"), Some(7));
    assert_eq!(parse_dec_i32("000"), Some(0));
}

#[test]
fn rejects_empty_and_non_digits() {
    assert_eq!(parse_dec_i32(""), None);
    assert_eq!(parse_dec_i32("five"), None);
    assert_eq!(parse_dec_i32("12a"), None);
    assert_eq!(parse_dec_i32("-3"), None);
    assert_eq!(parse_dec_i32("0x1F"), None);
    assert_eq!(parse_dec_i32("3i32"), None);
}

#[test]
fn rejects_values_beyond_i32() {
    assert_eq!(parse_dec_i32("2147483648"), None);
    assert_eq!(parse_dec_i32("99999999999999999999"), None);
}
