use splittea::text::{i64_text, parse_i64, same_text, text_before};

#[test]
fn parse_i64_reads_signs_and_digits() {
    assert_eq!(parse_i64("0"), Some(0));
    assert_eq!(parse_i64("42"), Some(42));
    assert_eq!(parse_i64("+42"), Some(42));
    assert_eq!(parse_i64("-42"), Some(-42));
    assert_eq!(parse_i64("-0"), Some(0));
    assert_eq!(parse_i64("007"), Some(7));
}

#[test]
fn parse_i64_reaches_both_ends_of_the_range() {
    assert_eq!(parse_i64("9223372036854775807"), Some(i64::MAX));
    assert_eq!(parse_i64("-9223372036854775808"), Some(i64::MIN));
    assert_eq!(parse_i64("9223372036854775808"), None);
    assert_eq!(parse_i64("-9223372036854775809"), None);
    assert_eq!(parse_i64("99999999999999999999999999999999999999999999"), None);
    assert_eq!(parse_i64("0000000000000000000000000000000000000000000012"), Some(12));
}

#[test]
fn parse_i64_refuses_anything_else() {
    assert_eq!(parse_i64(""), None);
    assert_eq!(parse_i64("-"), None);
    assert_eq!(parse_i64("+"), None);
    assert_eq!(parse_i64("--1"), None);
    assert_eq!(parse_i64(" 1"), None);
    assert_eq!(parse_i64("1 "), None);
    assert_eq!(parse_i64("1.0"), None);
    assert_eq!(parse_i64("1_000"), None);
    assert_eq!(parse_i64("12a"), None);
    assert_eq!(parse_i64("\u{663}"), None);
}

#[test]
fn parse_i64_agrees_with_the_standard_library() {
    let texts = ["", "-", "+", "+0", "-0", "12", "-12", "+12", "1e3", "0x10", "９", "9223372036854775807",
        "9223372036854775808", "-9223372036854775808", "-9223372036854775809", "00", "-007", "1-", "٣"];
    for text in texts {
        assert_eq!(parse_i64(text), text.parse::<i64>().ok(), "{:?}", text);
    }
}

#[test]
fn i64_text_writes_decimal_digits() {
    assert_eq!(i64_text(0), "0");
    assert_eq!(i64_text(7), "7");
    assert_eq!(i64_text(10), "10");
    assert_eq!(i64_text(-1), "-1");
    assert_eq!(i64_text(1234567890), "1234567890");
    assert_eq!(i64_text(i64::MAX), "9223372036854775807");
    assert_eq!(i64_text(i64::MIN), "-9223372036854775808");
}

#[test]
fn what_is_written_is_read_back() {
    for n in [0, 1, -1, 9, 10, -10, 99, 100, 12345, -98765, i64::MAX, i64::MIN] {
        assert_eq!(parse_i64(&i64_text(n)), Some(n));
    }
}

#[test]
fn same_text_compares_character_by_character() {
    assert!(same_text("", ""));
    assert!(same_text("@ann", "@ann"));
    assert!(!same_text("@ann", "@anna"));
    assert!(!same_text("@anna", "@ann"));
    assert!(!same_text("@ann", "@bob"));
    assert!(same_text("gr\u{fc}n", "gr\u{fc}n"));
    assert!(!same_text("gr\u{fc}n", "grun"));
}

#[test]
fn text_before_is_the_order_of_a_dictionary() {
    assert!(text_before("@ann", "@bob"));
    assert!(!text_before("@bob", "@ann"));
    assert!(text_before("@ann", "@anna"));
    assert!(!text_before("@anna", "@ann"));
    assert!(!text_before("@ann", "@ann"));
    assert!(text_before("", "a"));
    assert!(!text_before("", ""));
    assert!(text_before("Z", "a"));
    assert!(text_before("z", "\u{e9}"));
}
