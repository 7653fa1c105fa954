use dsh_tui::fit::fit_suffix;
use dsh_tui::text::{
    chars_of, contains, decimal, fold_line_breaks, has_white_space, is_blank, repeat_char,
    same_text, starts_with, string_of,
};

#[test]
fn fit_suffix_keeps_a_label_that_fits() {
    assert_eq!(fit_suffix("gpt · high", 80), "gpt · high");
    assert_eq!(fit_suffix("abcd", 4), "abcd");
}

#[test]
fn fit_suffix_is_empty_without_columns() {
    assert_eq!(fit_suffix("anything", 0), "");
    assert_eq!(fit_suffix("", 0), "");
}

#[test]
fn fit_suffix_keeps_the_end_of_a_long_label() {
    assert_eq!(fit_suffix("abcdef", 4), "…def");
    assert_eq!(fit_suffix("deepseek-flash · high", 10), "…sh · high");
}

#[test]
fn fit_suffix_counts_wide_characters_by_columns() {
    // "中文ab" is six columns wide; three columns keep "…ab".
    assert_eq!(fit_suffix("中文ab", 3), "…ab");
    assert_eq!(fit_suffix("中文ab", 6), "中文ab");
    assert_eq!(fit_suffix("ab中文", 5), "…中文");
}

#[test]
fn fit_suffix_never_splits_a_cluster() {
    // "e\u{301}" is one cluster of one column; it is dropped whole.
    assert_eq!(fit_suffix("e\u{301}xyz", 3), "…yz");
    assert_eq!(fit_suffix("x", 1), "x");
    assert_eq!(fit_suffix("xy", 1), "…");
}

#[test]
fn decimal_writes_numbers() {
    assert_eq!(decimal(0), "0");
    assert_eq!(decimal(7), "7");
    assert_eq!(decimal(10), "10");
    assert_eq!(decimal(1234567890), "1234567890");
}

#[test]
fn repeat_char_repeats() {
    assert_eq!(repeat_char('─', 3), "───");
    assert_eq!(repeat_char('x', 0), "");
}

#[test]
fn chars_and_strings_round_trip() {
    let cs = chars_of("a中😀");
    assert_eq!(cs, vec!['a', '中', '😀']);
    assert_eq!(string_of(&cs), "a中😀");
    assert_eq!(string_of(&[]), "");
}

#[test]
fn blank_means_only_white_space() {
    assert!(is_blank(""));
    assert!(is_blank(" \t\n\u{3000}"));
    assert!(!is_blank(" a "));
    assert!(has_white_space("a b"));
    assert!(has_white_space("a\u{3000}"));
    assert!(!has_white_space("abc"));
}

#[test]
fn substring_and_prefix_tests() {
    assert!(contains("hello world", "o w"));
    assert!(contains("abc", ""));
    assert!(!contains("abc", "abcd"));
    assert!(!contains("abc", "ca"));
    assert!(starts_with("model", "mod"));
    assert!(starts_with("model", ""));
    assert!(!starts_with("mo", "model"));
    assert!(same_text("中文", "中文"));
    assert!(!same_text("a", "b"));
}

#[test]
fn fold_line_breaks_folds_each_break_once() {
    assert_eq!(fold_line_breaks("a\r\nb\nc\rd\te", true), "a b c d e");
    assert_eq!(fold_line_breaks("a\r\nb\nc\rd\te", false), "a b c d\te");
    assert_eq!(fold_line_breaks("\r\n\r\n", true), "  ");
    assert_eq!(fold_line_breaks("\n\r", true), "  ");
    assert_eq!(fold_line_breaks("", true), "");
}
