use polybot_rust::decimal::parse_decimal;
use polybot_rust::text::{hex_string, decimal_string, three_decimals, one_decimal, signed_pct_string, same_text};

#[test]
fn parses_plain_decimals() {
    assert_eq!(parse_decimal("0.52"), Some(520_000));
    assert_eq!(parse_decimal("1250.5"), Some(1_250_500_000));
    assert_eq!(parse_decimal("5."), Some(5_000_000));
    assert_eq!(parse_decimal(".5"), Some(500_000));
    assert_eq!(parse_decimal("0"), Some(0));
    assert_eq!(parse_decimal("007"), Some(7_000_000));
}

#[test]
fn truncates_fraction_past_six_digits() {
    assert_eq!(parse_decimal("0.1234567"), Some(123_456));
    assert_eq!(parse_decimal("0.000001"), Some(1));
    assert_eq!(parse_decimal("0.0000009"), Some(0));
}

#[test]
fn refuses_text_that_is_not_a_plain_decimal() {
    assert_eq!(parse_decimal(""), None);
    assert_eq!(parse_decimal("."), None);
    assert_eq!(parse_decimal("-"), None);
    assert_eq!(parse_decimal("+.e1"), None);
    assert_eq!(parse_decimal("1e"), None);
    assert_eq!(parse_decimal("1e+"), None);
    assert_eq!(parse_decimal("1e2.5"), None);
    assert_eq!(parse_decimal("inf"), None);
    assert_eq!(parse_decimal("NaN"), None);
    assert_eq!(parse_decimal("--1"), None);
    assert_eq!(parse_decimal("abc"), None);
    assert_eq!(parse_decimal("1.2.3"), None);
    assert_eq!(parse_decimal(" 1"), None);
}

#[test]
fn reads_signs_and_exponents() {
    assert_eq!(parse_decimal("-1"), Some(-1_000_000));
    assert_eq!(parse_decimal("+2.5"), Some(2_500_000));
    assert_eq!(parse_decimal("-0.0000009"), Some(0));
    assert_eq!(parse_decimal("-0"), Some(0));
    assert_eq!(parse_decimal("1e3"), Some(1_000_000_000));
    assert_eq!(parse_decimal("1.5E-2"), Some(15_000));
    assert_eq!(parse_decimal("-12.5e+1"), Some(-125_000_000));
    assert_eq!(parse_decimal("123456e-12"), Some(0));
    assert_eq!(parse_decimal("0.00012e4"), Some(1_200_000));
    assert_eq!(parse_decimal("0e99999999999999999999999999"), Some(0));
    assert_eq!(parse_decimal("1e99999999999999999999999999"), None);
    assert_eq!(parse_decimal("5e-99999999999999999999999999"), Some(0));
    assert_eq!(parse_decimal("9.99999999e8"), Some(999_999_999_000_000));
    assert_eq!(parse_decimal("1e9"), Some(1_000_000_000_000_000));
    assert_eq!(parse_decimal("4e12"), None);
    assert_eq!(parse_decimal("-999999999.9999999"), Some(-999_999_999_999_999));
}

#[test]
fn magnitude_below_four_trillion() {
    assert_eq!(parse_decimal("999999999.999999"), Some(999_999_999_999_999));
    assert_eq!(parse_decimal("1000000000"), Some(1_000_000_000_000_000));
    assert_eq!(parse_decimal("3999999999999.999999"), Some(3_999_999_999_999_999_999));
    assert_eq!(parse_decimal("-3999999999999.999999"), Some(-3_999_999_999_999_999_999));
    assert_eq!(parse_decimal("4000000000000"), None);
    assert_eq!(parse_decimal("0000000001.5"), Some(1_500_000));
}

#[test]
fn formats_numbers() {
    assert_eq!(hex_string(255), "ff");
    assert_eq!(hex_string(0), "0");
    assert_eq!(hex_string(0x17c2_9a3b), "17c29a3b");
    assert_eq!(decimal_string(0), "0");
    assert_eq!(decimal_string(1716451200), "1716451200");
    assert_eq!(three_decimals(150), "0.150");
    assert_eq!(three_decimals(12345), "12.345");
    assert_eq!(three_decimals(7), "0.007");
    assert_eq!(one_decimal(305), "30.5");
}

#[test]
fn formats_signed_percentages() {
    assert_eq!(signed_pct_string(300_000), "30.0");
    assert_eq!(signed_pct_string(-152_000), "-15.2");
    assert_eq!(signed_pct_string(123_449), "12.3");
    assert_eq!(signed_pct_string(123_500), "12.4");
    assert_eq!(signed_pct_string(-400), "-0.0");
    assert_eq!(signed_pct_string(0), "0.0");
}

#[test]
fn compares_text() {
    assert!(same_text("BTC", "BTC"));
    assert!(!same_text("BTC", "btc"));
}
