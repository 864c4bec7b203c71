use catalog::numeric::{parse_i32, u32_to_string};

#[test]
fn parse_plain_number() {
    assert_eq!(parse_i32("123"), Some(123));
    assert_eq!(parse_i32("0"), Some(0));
    assert_eq!(parse_i32("007"), Some(7));
}

#[test]
fn parse_signed_numbers() {
    assert_eq!(parse_i32("+42"), Some(42));
    assert_eq!(parse_i32("-5"), Some(-5));
}

#[test]
fn parse_range_limits() {
    assert_eq!(parse_i32("2147483647"), Some(i32::MAX));
    assert_eq!(parse_i32("-2147483648"), Some(i32::MIN));
    assert_eq!(parse_i32("2147483648"), None);
    assert_eq!(parse_i32("-2147483649"), None);
    assert_eq!(parse_i32("4294967296"), None);
}

#[test]
fn parse_rejects_malformed() {
    assert_eq!(parse_i32(""), None);
    assert_eq!(parse_i32("+"), None);
    assert_eq!(parse_i32("-"), None);
    assert_eq!(parse_i32("12a"), None);
    assert_eq!(parse_i32("a12"), None);
    assert_eq!(parse_i32(" 1"), None);
    assert_eq!(parse_i32("1 "), None);
}

#[test]
fn render_decimal() {
    assert_eq!(u32_to_string(0), "0");
    assert_eq!(u32_to_string(7), "7");
    assert_eq!(u32_to_string(10), "10");
    assert_eq!(u32_to_string(123456789), "123456789");
    assert_eq!(u32_to_string(u32::MAX), "4294967295");
}
