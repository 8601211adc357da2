use mongodb_cli::text::{fmt_u64, parse_i64, parse_usize};

#[test]
fn formats_zero_and_small_numbers() {
    assert_eq!(fmt_u64(0), "0");
    assert_eq!(fmt_u64(7), "7");
    assert_eq!(fmt_u64(10), "10");
    assert_eq!(fmt_u64(123456789), "123456789");
}

#[test]
fn formats_the_largest_number() {
    assert_eq!(fmt_u64(u64::MAX), "18446744073709551615");
}

#[test]
fn parses_unsigned_numbers() {
    assert_eq!(parse_usize("0").unwrap(), 0);
    assert_eq!(parse_usize("42").unwrap(), 42);
    assert_eq!(parse_usize("+7").unwrap(), 7);
}

#[test]
fn rejects_malformed_unsigned_numbers() {
    assert!(parse_usize("").is_err());
    assert!(parse_usize("+").is_err());
    assert!(parse_usize("abc").is_err());
    assert!(parse_usize("1a").is_err());
    assert!(parse_usize("-1").is_err());
    assert!(parse_usize(" 1").is_err());
}

#[test]
fn rejects_unsigned_overflow() {
    assert!(parse_usize("99999999999999999999999999").is_err());
    assert_eq!(parse_usize("18446744073709551615").unwrap(), usize::MAX);
    assert!(parse_usize("18446744073709551616").is_err());
}

#[test]
fn parses_signed_numbers() {
    assert_eq!(parse_i64("-42").unwrap(), -42);
    assert_eq!(parse_i64("+9").unwrap(), 9);
    assert_eq!(parse_i64("0").unwrap(), 0);
    assert_eq!(parse_i64("-0").unwrap(), 0);
}

#[test]
fn parses_the_signed_extremes() {
    assert_eq!(parse_i64("9223372036854775807").unwrap(), i64::MAX);
    assert_eq!(parse_i64("-9223372036854775808").unwrap(), i64::MIN);
    assert!(parse_i64("9223372036854775808").is_err());
    assert!(parse_i64("-9223372036854775809").is_err());
}

#[test]
fn rejects_malformed_signed_numbers() {
    assert!(parse_i64("").is_err());
    assert!(parse_i64("-").is_err());
    assert!(parse_i64("--1").is_err());
    assert!(parse_i64("1.5").is_err());
}
