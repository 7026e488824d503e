use http_tunnel::number::{format_u16, parse_u16, NumberError};
use std::num::IntErrorKind;

fn kind_of(text: &str) -> Result<u16, NumberError> {
    match text.parse::<u16>() {
        Ok(n) => Ok(n),
        Err(e) => match e.kind() {
            IntErrorKind::Empty => Err(NumberError::Empty),
            IntErrorKind::InvalidDigit => Err(NumberError::InvalidDigit),
            IntErrorKind::PosOverflow => Err(NumberError::Overflow),
            other => panic!("unexpected kind {:?}", other),
        },
    }
}

#[test]
fn parse_plain_numbers() {
    assert_eq!(parse_u16("0"), Ok(0));
    assert_eq!(parse_u16("21"), Ok(21));
    assert_eq!(parse_u16("8080"), Ok(8080));
    assert_eq!(parse_u16("65535"), Ok(65535));
}

#[test]
fn parse_leading_zeros_and_plus() {
    assert_eq!(parse_u16("0080"), Ok(80));
    assert_eq!(parse_u16("+80"), Ok(80));
    assert_eq!(parse_u16("000000065535"), Ok(65535));
}

#[test]
fn parse_empty_is_empty() {
    assert_eq!(parse_u16(""), Err(NumberError::Empty));
}

#[test]
fn parse_lone_sign_is_invalid_digit() {
    assert_eq!(parse_u16("+"), Err(NumberError::InvalidDigit));
    assert_eq!(parse_u16("-"), Err(NumberError::InvalidDigit));
}

#[test]
fn parse_non_digits_are_invalid() {
    assert_eq!(parse_u16("host"), Err(NumberError::InvalidDigit));
    assert_eq!(parse_u16("-1"), Err(NumberError::InvalidDigit));
    assert_eq!(parse_u16("++1"), Err(NumberError::InvalidDigit));
    assert_eq!(parse_u16("80 "), Err(NumberError::InvalidDigit));
    assert_eq!(parse_u16(" 80"), Err(NumberError::InvalidDigit));
    assert_eq!(parse_u16("8o"), Err(NumberError::InvalidDigit));
    assert_eq!(parse_u16("\u{0663}"), Err(NumberError::InvalidDigit));
}

#[test]
fn parse_overflow() {
    assert_eq!(parse_u16("65536"), Err(NumberError::Overflow));
    assert_eq!(parse_u16("70000"), Err(NumberError::Overflow));
    assert_eq!(parse_u16("99999999"), Err(NumberError::Overflow));
}

#[test]
fn parse_reports_what_comes_first() {
    assert_eq!(parse_u16("99999x"), Err(NumberError::Overflow));
    assert_eq!(parse_u16("9999x9"), Err(NumberError::InvalidDigit));
    assert_eq!(parse_u16("6553x"), Err(NumberError::InvalidDigit));
}

#[test]
fn parse_agrees_with_std() {
    let samples = vec![
        "", "+", "-", "0", "+0", "-0", "1", "65535", "65536", "655350", "0065535", "+65535",
        "+65536", "12a", "a12", "1 2", "99999x", "9999x9", "٣", "1٣", "٣1", "000", "+-1", "1+",
        "6553", "65530", "65539", "4294967296",
    ];
    for text in samples {
        assert_eq!(parse_u16(text), kind_of(text), "on {:?}", text);
    }
}

#[test]
fn format_writes_decimal() {
    assert_eq!(format_u16(0), "0");
    assert_eq!(format_u16(7), "7");
    assert_eq!(format_u16(21), "21");
    assert_eq!(format_u16(8080), "8080");
    assert_eq!(format_u16(65535), "65535");
    assert_eq!(format_u16(1000), "1000");
}

#[test]
fn format_then_parse_is_identity() {
    let mut n: u32 = 0;
    while n <= 65535 {
        let v = n as u16;
        assert_eq!(parse_u16(&format_u16(v)), Ok(v));
        assert_eq!(format_u16(v), v.to_string());
        n += 257;
    }
    assert_eq!(parse_u16(&format_u16(65535)), Ok(65535));
}
