use documentdb_gateway::numeric::{i64_to_string, parse_bool, parse_i32, parse_u64,
    u64_to_hex_string, u64_to_string};

#[test]
fn parse_u64_plain_digits() {
    assert_eq!(parse_u64("123"), Some(123));
    assert_eq!(parse_u64("0"), Some(0));
    assert_eq!(parse_u64("+7"), Some(7));
}

#[test]
fn parse_u64_rejects_junk() {
    assert_eq!(parse_u64(""), None);
    assert_eq!(parse_u64("+"), None);
    assert_eq!(parse_u64("12a"), None);
    assert_eq!(parse_u64(" 12"), None);
    assert_eq!(parse_u64("-1"), None);
}

#[test]
fn parse_u64_range_edges() {
    assert_eq!(parse_u64("18446744073709551615"), Some(u64::MAX));
    assert_eq!(parse_u64("18446744073709551616"), None);
    assert_eq!(parse_u64("99999999999999999999999"), None);
}

#[test]
fn parse_i32_signs_and_range() {
    assert_eq!(parse_i32("42"), Some(42));
    assert_eq!(parse_i32("+42"), Some(42));
    assert_eq!(parse_i32("-42"), Some(-42));
    assert_eq!(parse_i32("2147483647"), Some(i32::MAX));
    assert_eq!(parse_i32("2147483648"), None);
    assert_eq!(parse_i32("-2147483648"), Some(i32::MIN));
    assert_eq!(parse_i32("-2147483649"), None);
    assert_eq!(parse_i32("-+5"), None);
    assert_eq!(parse_i32("-"), None);
}

#[test]
fn parse_bool_exact_literals() {
    assert_eq!(parse_bool("true"), Some(true));
    assert_eq!(parse_bool("false"), Some(false));
    assert_eq!(parse_bool("True"), None);
    assert_eq!(parse_bool("1"), None);
    assert_eq!(parse_bool(""), None);
}

#[test]
fn print_decimal() {
    assert_eq!(u64_to_string(0).as_str(), "0");
    assert_eq!(u64_to_string(9).as_str(), "9");
    assert_eq!(u64_to_string(120000).as_str(), "120000");
    assert_eq!(u64_to_string(u64::MAX).as_str(), "18446744073709551615");
}

#[test]
fn print_signed_decimal() {
    assert_eq!(i64_to_string(0).as_str(), "0");
    assert_eq!(i64_to_string(-5).as_str(), "-5");
    assert_eq!(i64_to_string(i64::MIN).as_str(), "-9223372036854775808");
    assert_eq!(i64_to_string(i64::MAX).as_str(), "9223372036854775807");
}

#[test]
fn print_hexadecimal() {
    assert_eq!(u64_to_hex_string(0).as_str(), "0");
    assert_eq!(u64_to_hex_string(255).as_str(), "ff");
    assert_eq!(u64_to_hex_string(0xdead_beef).as_str(), "deadbeef");
    assert_eq!(u64_to_hex_string(u64::MAX).as_str(), "ffffffffffffffff");
}
