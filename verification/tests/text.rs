use course_scraper::text::{
    is_safe_file_name, join_with_slash, strip_prefix, strip_suffix, to_chars, trim_char,
};

#[test]
fn to_chars_keeps_every_character_in_order() {
    assert_eq!(to_chars("a/é"), vec!['a', '/', 'é']);
    assert_eq!(to_chars(""), Vec::<char>::new());
}

#[test]
fn strip_prefix_removes_a_leading_occurrence_once() {
    assert_eq!(strip_prefix("../../mc202ABC/7", "../../mc202ABC/"), "7");
    assert_eq!(strip_prefix("abab", "ab"), "ab");
    assert_eq!(strip_prefix("abc", "abc"), "");
}

#[test]
fn strip_prefix_leaves_other_text_alone() {
    assert_eq!(strip_prefix("x../../mc202ABC/7", "../../mc202ABC/"), "x../../mc202ABC/7");
    assert_eq!(strip_prefix("ab", "abc"), "ab");
    assert_eq!(strip_prefix("", "a"), "");
    assert_eq!(strip_prefix("abc", ""), "abc");
}

#[test]
fn strip_suffix_removes_a_trailing_occurrence_once() {
    assert_eq!(strip_suffix("http://x/42/enunc.html", "/enunc.html"), "http://x/42");
    assert_eq!(strip_suffix("a/enunc.html/enunc.html", "/enunc.html"), "a/enunc.html");
    assert_eq!(strip_suffix("é/enunc.html", "/enunc.html"), "é");
}

#[test]
fn strip_suffix_leaves_other_text_alone() {
    assert_eq!(strip_suffix("http://x/enunc.html/42", "/enunc.html"), "http://x/enunc.html/42");
    assert_eq!(strip_suffix("html", "/enunc.html"), "html");
}

#[test]
fn trim_char_strips_both_ends_repeatedly() {
    assert_eq!(trim_char("\"diagram.png\"", '"'), "diagram.png");
    assert_eq!(trim_char("\"\"a\"b\"\"\"", '"'), "a\"b");
    assert_eq!(trim_char("plain", '"'), "plain");
}

#[test]
fn trim_char_of_only_that_character_is_empty() {
    assert_eq!(trim_char("\"\"\"", '"'), "");
    assert_eq!(trim_char("", '"'), "");
}

#[test]
fn safe_file_names_are_accepted() {
    assert!(is_safe_file_name("7"));
    assert!(is_safe_file_name("diagram.png"));
    assert!(is_safe_file_name("..."));
    assert!(is_safe_file_name(".hidden"));
    assert!(is_safe_file_name("a b\"c"));
}

#[test]
fn unsafe_file_names_are_rejected() {
    assert!(!is_safe_file_name(""));
    assert!(!is_safe_file_name("."));
    assert!(!is_safe_file_name(".."));
    assert!(!is_safe_file_name("a/b.png"));
    assert!(!is_safe_file_name("/etc/passwd"));
    assert!(!is_safe_file_name("a\\b"));
    assert!(!is_safe_file_name("a\0b"));
}

#[test]
fn join_with_slash_puts_one_slash_between() {
    assert_eq!(join_with_slash("http://x/42", "a.png"), "http://x/42/a.png");
    assert_eq!(join_with_slash("", ""), "/");
}
