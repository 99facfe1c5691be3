use soundsync::text::{decimal_string, signed_decimal_string, split_char, trim_str};

#[test]
fn trim_removes_unicode_whitespace() {
    assert_eq!(trim_str("  \t hello world \r\n"), "hello world");
    assert_eq!(trim_str("\u{3000}x\u{a0}"), "x");
    assert_eq!(trim_str("   "), "");
    assert_eq!(trim_str(""), "");
}

#[test]
fn split_keeps_empty_pieces() {
    assert_eq!(split_char("a:b:c", ':'), vec!["a", "b", "c"]);
    assert_eq!(split_char("::", ':'), vec!["", "", ""]);
    assert_eq!(split_char("", ':'), vec![""]);
    assert_eq!(split_char("abc", ':'), vec!["abc"]);
}

#[test]
fn decimals_match_display() {
    assert_eq!(decimal_string(0), "0");
    assert_eq!(decimal_string(1234567890), "1234567890");
    assert_eq!(decimal_string(u64::MAX), u64::MAX.to_string());
    assert_eq!(signed_decimal_string(-1), "-1");
    assert_eq!(signed_decimal_string(i64::MIN), i64::MIN.to_string());
    assert_eq!(signed_decimal_string(42), "42");
}
