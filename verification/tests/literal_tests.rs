use dpoll::errors::ConfigError;
use dpoll::literals::{
    parse_bool_literal, parse_i16_literal, parse_i32_literal, parse_reference, parse_timeout,
    parse_u16_literal, parse_u32_literal,
};

#[test]
fn u16_literals_in_three_bases() {
    assert_eq!(parse_u16_literal("123"), Some(123));
    assert_eq!(parse_u16_literal("0"), Some(0));
    assert_eq!(parse_u16_literal("65535"), Some(65535));
    assert_eq!(parse_u16_literal("0x1A"), Some(26));
    assert_eq!(parse_u16_literal("0xffff"), Some(0xFFFF));
    assert_eq!(parse_u16_literal("0b101"), Some(5));
    assert_eq!(parse_u16_literal("00042"), Some(42));
}

#[test]
fn u16_literals_rejected() {
    assert_eq!(parse_u16_literal("65536"), None);
    assert_eq!(parse_u16_literal(""), None);
    assert_eq!(parse_u16_literal("0x"), None);
    assert_eq!(parse_u16_literal("0b"), None);
    assert_eq!(parse_u16_literal("12a"), None);
    assert_eq!(parse_u16_literal("-1"), None);
    assert_eq!(parse_u16_literal("0xG1"), None);
    assert_eq!(parse_u16_literal("0b102"), None);
}

#[test]
fn u32_literals() {
    assert_eq!(parse_u32_literal("4294967295"), Some(u32::MAX));
    assert_eq!(parse_u32_literal("0xFFFFFFFF"), Some(u32::MAX));
    assert_eq!(parse_u32_literal("4294967296"), None);
    assert_eq!(parse_u32_literal("0b11111111111111111111111111111111"), Some(u32::MAX));
}

#[test]
fn i16_literals() {
    assert_eq!(parse_i16_literal("-1568"), Some(-1568));
    assert_eq!(parse_i16_literal("-32768"), Some(-32768));
    assert_eq!(parse_i16_literal("32767"), Some(32767));
    assert_eq!(parse_i16_literal("+25"), Some(25));
    assert_eq!(parse_i16_literal("-0"), Some(0));
    assert_eq!(parse_i16_literal("32768"), None);
    assert_eq!(parse_i16_literal("-32769"), None);
    assert_eq!(parse_i16_literal("0x10"), None);
    assert_eq!(parse_i16_literal("-"), None);
}

#[test]
fn i32_literals() {
    assert_eq!(parse_i32_literal("-123456"), Some(-123456));
    assert_eq!(parse_i32_literal("-2147483648"), Some(i32::MIN));
    assert_eq!(parse_i32_literal("2147483647"), Some(i32::MAX));
    assert_eq!(parse_i32_literal("2147483648"), None);
    assert_eq!(parse_i32_literal("-2147483649"), None);
}

#[test]
fn bool_literals() {
    assert_eq!(parse_bool_literal("true"), Some(true));
    assert_eq!(parse_bool_literal("false"), Some(false));
    assert_eq!(parse_bool_literal("True"), None);
    assert_eq!(parse_bool_literal("1"), None);
    assert_eq!(parse_bool_literal(""), None);
}

#[test]
fn references_in_three_bases() {
    assert_eq!(parse_reference("0"), Ok(0));
    assert_eq!(parse_reference("100"), Ok(100));
    assert_eq!(parse_reference("0x10"), Ok(16));
    assert_eq!(parse_reference("0b1000"), Ok(8));
    assert_eq!(parse_reference("65536"), Err(ConfigError::InvalidReference));
    assert_eq!(parse_reference("ten"), Err(ConfigError::InvalidReference));
}

#[test]
fn timeouts_in_seconds_to_milliseconds() {
    assert_eq!(parse_timeout("1.00"), Ok(1000));
    assert_eq!(parse_timeout("0.01"), Ok(10));
    assert_eq!(parse_timeout("10"), Ok(10000));
    assert_eq!(parse_timeout("2.5"), Ok(2500));
    assert_eq!(parse_timeout("0.5"), Ok(500));
    assert_eq!(parse_timeout("1."), Ok(1000));
    assert_eq!(parse_timeout(".5"), Ok(500));
    // digits past the millisecond are dropped
    assert_eq!(parse_timeout("0.1234"), Ok(123));
    assert_eq!(parse_timeout("0.999"), Ok(999));
}

#[test]
fn timeouts_rejected() {
    assert_eq!(parse_timeout("."), Err(ConfigError::InvalidTimeout));
    assert_eq!(parse_timeout(""), Err(ConfigError::InvalidTimeout));
    assert_eq!(parse_timeout("abc"), Err(ConfigError::InvalidTimeout));
    assert_eq!(parse_timeout("-1"), Err(ConfigError::InvalidTimeout));
    assert_eq!(parse_timeout("1.2.3"), Err(ConfigError::InvalidTimeout));
    assert_eq!(parse_timeout("1,5"), Err(ConfigError::InvalidTimeout));
}
