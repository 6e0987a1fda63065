use git_changelog::text::{decimal, description, short_id, signed_decimal};

#[test]
fn description_of_empty_message_is_placeholder() {
    assert_eq!(description(""), "<No description>");
}

#[test]
fn description_is_first_line() {
    assert_eq!(description("Fix the parser\n\nLong explanation"), "Fix the parser");
    assert_eq!(description("one line"), "one line");
    assert_eq!(description("\nbody only"), "");
}

#[test]
fn decimal_writes_numbers() {
    assert_eq!(decimal(0), "0");
    assert_eq!(decimal(5), "5");
    assert_eq!(decimal(1234567890), "1234567890");
    assert_eq!(decimal(u64::MAX), "18446744073709551615");
}

#[test]
fn short_id_keeps_seven_characters() {
    assert_eq!(short_id("0123456789abcdef"), "0123456");
    assert_eq!(short_id("0123456"), "0123456");
    assert_eq!(short_id("abc"), "abc");
}

#[test]
fn signed_decimal_writes_the_sign() {
    assert_eq!(signed_decimal(0), "0");
    assert_eq!(signed_decimal(-1), "-1");
    assert_eq!(signed_decimal(i64::MAX), "9223372036854775807");
    assert_eq!(signed_decimal(i64::MIN), "-9223372036854775808");
}
