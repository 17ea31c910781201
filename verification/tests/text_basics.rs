use tusker_core::text::{
    contains, int_to_decimal, join, replace_char, starts_with, text_eq, text_less, trim,
};

#[test]
fn trim_removes_white_space_at_both_ends() {
    assert_eq!(trim("  SELECT 1 \n"), "SELECT 1");
    assert_eq!(trim("\t\u{a0}x y\u{2003}"), "x y");
    assert_eq!(trim(""), "");
    assert_eq!(trim(" \r\n\t "), "");
    assert_eq!(trim("a"), "a");
}

#[test]
fn trim_agrees_with_the_standard_library() {
    for s in ["", " ", "  a  ", "\u{85}b\u{1680}", "a b", "\u{3000}\u{2028}c\u{2029}\u{205f}", "é "] {
        assert_eq!(trim(s), s.trim());
    }
}

#[test]
fn decimal_text_of_integers() {
    assert_eq!(int_to_decimal(0), "0");
    assert_eq!(int_to_decimal(7), "7");
    assert_eq!(int_to_decimal(5432), "5432");
    assert_eq!(int_to_decimal(-15), "-15");
    assert_eq!(int_to_decimal(i64::MAX as i128), "9223372036854775807");
    assert_eq!(int_to_decimal(i64::MIN as i128), "-9223372036854775808");
    assert_eq!(int_to_decimal(i128::MIN), i128::MIN.to_string());
    assert_eq!(int_to_decimal(i128::MAX), i128::MAX.to_string());
}

#[test]
fn replace_char_replaces_every_occurrence() {
    assert_eq!(replace_char("a'b''c", '\'', "''"), "a''b''''c");
    assert_eq!(replace_char("", 'x', "yy"), "");
    assert_eq!(replace_char("zzz", 'z', ""), "");
}

#[test]
fn join_puts_the_separator_between_parts() {
    let parts = vec!["a".to_string(), "b".to_string(), "c".to_string()];
    assert_eq!(join(&parts, ", "), "a, b, c");
    assert_eq!(join(&vec!["only".to_string()], " AND "), "only");
    assert_eq!(join(&Vec::new(), ", "), "");
}

#[test]
fn prefix_and_substring_search() {
    assert!(starts_with("SELECT 1", "SELECT"));
    assert!(!starts_with("SEL", "SELECT"));
    assert!(starts_with("abc", ""));
    assert!(contains("FATAL 28P01: password", "28P01"));
    assert!(!contains("connection refused", "28000"));
    assert!(contains("abc", ""));
    assert!(!contains("", "a"));
}

#[test]
fn text_order_is_the_order_of_str() {
    let samples = ["", "a", "ab", "b", "B", "app", "postgres", "é", "z", "aa"];
    for a in samples {
        for b in samples {
            assert_eq!(text_less(a, b), a < b, "{:?} < {:?}", a, b);
            assert_eq!(text_eq(a, b), a == b);
        }
    }
}
