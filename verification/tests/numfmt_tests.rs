//! Decimal rendering and parsing.

use fortfetch::numfmt::parse_i32;
use fortfetch::numfmt::parse_u64;
use fortfetch::numfmt::u64_to_string;

#[test]
fn renders_zero() {
    assert_eq!(u64_to_string(0), "0");
}

#[test]
fn renders_single_digit() {
    assert_eq!(u64_to_string(7), "7");
}

#[test]
fn renders_round_number() {
    assert_eq!(u64_to_string(1000), "1000");
}

#[test]
fn renders_largest_value() {
    assert_eq!(u64_to_string(u64::MAX), "18446744073709551615");
}

#[test]
fn parses_plain_u64() {
    assert_eq!(parse_u64("42"), Some(42));
}

#[test]
fn parses_u64_with_plus_sign() {
    assert_eq!(parse_u64("+42"), Some(42));
}

#[test]
fn parses_u64_at_the_limit() {
    assert_eq!(parse_u64("18446744073709551615"), Some(u64::MAX));
}

#[test]
fn rejects_u64_above_the_limit() {
    assert_eq!(parse_u64("18446744073709551616"), None);
}

#[test]
fn rejects_empty_u64() {
    assert_eq!(parse_u64(""), None);
    assert_eq!(parse_u64("+"), None);
}

#[test]
fn rejects_u64_with_stray_characters() {
    assert_eq!(parse_u64("4 2"), None);
    assert_eq!(parse_u64("-1"), None);
    assert_eq!(parse_u64("12a"), None);
}

#[test]
fn parses_signed_values() {
    assert_eq!(parse_i32("17"), Some(17));
    assert_eq!(parse_i32("+17"), Some(17));
    assert_eq!(parse_i32("-17"), Some(-17));
}

#[test]
fn parses_i32_at_both_limits() {
    assert_eq!(parse_i32("2147483647"), Some(i32::MAX));
    assert_eq!(parse_i32("-2147483648"), Some(i32::MIN));
}

#[test]
fn rejects_i32_beyond_the_limits() {
    assert_eq!(parse_i32("2147483648"), None);
    assert_eq!(parse_i32("-2147483649"), None);
}

#[test]
fn rejects_malformed_i32() {
    assert_eq!(parse_i32(""), None);
    assert_eq!(parse_i32("-"), None);
    assert_eq!(parse_i32("1.5"), None);
}
