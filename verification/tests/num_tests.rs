//! The decimal codecs behind the numeric header fields.

use yooper::num::{format_i32, format_u16, format_u8, parse_i32, parse_u16, parse_u8};

#[test]
fn test_parse_unsigned() {
    assert_eq!(parse_u8("0"), Some(0));
    assert_eq!(parse_u8("255"), Some(255));
    assert_eq!(parse_u8("+7"), Some(7));
    assert_eq!(parse_u8("007"), Some(7));
    assert_eq!(parse_u8("256"), None);
    assert_eq!(parse_u8(""), None);
    assert_eq!(parse_u8("+"), None);
    assert_eq!(parse_u8("-1"), None);
    assert_eq!(parse_u8("1 "), None);
    assert_eq!(parse_u16("65535"), Some(65535));
    assert_eq!(parse_u16("65536"), None);
}

#[test]
fn test_parse_signed() {
    assert_eq!(parse_i32("-12"), Some(-12));
    assert_eq!(parse_i32("2147483647"), Some(2147483647));
    assert_eq!(parse_i32("-2147483648"), Some(-2147483648));
    assert_eq!(parse_i32("2147483648"), None);
    assert_eq!(parse_i32("-2147483649"), None);
    assert_eq!(parse_i32("-"), None);
}

#[test]
fn test_format() {
    assert_eq!(format_u8(0), "0");
    assert_eq!(format_u8(255), "255");
    assert_eq!(format_u16(1900), "1900");
    assert_eq!(format_i32(-12), "-12");
    assert_eq!(format_i32(0), "0");
    assert_eq!(format_i32(-2147483648), "-2147483648");
}
