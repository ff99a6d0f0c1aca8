use pxls_rs::decimal::{
    format_i64, format_u64, format_zero_padded, parse_i32, parse_u32, parse_u64, IntErrorKind,
};

fn cs(s: &str) -> Vec<char> {
    s.chars().collect()
}

fn text(v: Vec<char>) -> String {
    v.into_iter().collect()
}

#[test]
fn parses_like_std() {
    assert_eq!(parse_i32(&cs("+12")), Ok(12));
    assert_eq!(parse_i32(&cs("-0")), Ok(0));
    assert_eq!(parse_i32(&cs("-2147483648")), Ok(i32::MIN));
    assert_eq!(parse_i32(&cs("2147483648")), Err(IntErrorKind::PosOverflow));
    assert_eq!(parse_i32(&cs("-2147483649")), Err(IntErrorKind::NegOverflow));
    assert_eq!(parse_i32(&cs("")), Err(IntErrorKind::Empty));
    assert_eq!(parse_i32(&cs("-")), Err(IntErrorKind::InvalidDigit));
    assert_eq!(parse_i32(&cs("12a")), Err(IntErrorKind::InvalidDigit));
    assert_eq!(parse_u32(&cs("-1")), Err(IntErrorKind::InvalidDigit));
    assert_eq!(parse_u64(&cs("0018446744073709551615")), Ok(u64::MAX));
}

#[test]
fn formats_like_display() {
    assert_eq!(text(format_u64(0)), "0");
    assert_eq!(text(format_u64(u64::MAX)), "18446744073709551615");
    assert_eq!(text(format_i64(i64::MIN)), "-9223372036854775808");
}

#[test]
fn zero_padding_follows_the_sign() {
    assert_eq!(text(format_zero_padded(42, 4)), "0042");
    assert_eq!(text(format_zero_padded(-5, 4)), "-005");
    assert_eq!(text(format_zero_padded(12345, 4)), "12345");
    assert_eq!(text(format_zero_padded(7, 0)), "7");
    assert_eq!(text(format_zero_padded(-7, 0)), "-7");
    assert_eq!(text(format_zero_padded(i64::MIN, 2)), "-9223372036854775808");
}
