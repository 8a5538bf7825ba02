use atrium::text::{
    before_char, chars_of, clone_strings, contains, same, starts_with, to_lowercase, u64_decimal,
};

#[test]
fn chars_of_a_text() {
    assert_eq!(chars_of("h\u{e9}!"), vec!['h', '\u{e9}', '!']);
    assert!(chars_of("").is_empty());
}

#[test]
fn same_text() {
    assert!(same("", ""));
    assert!(same("abc", "abc"));
    assert!(!same("abc", "abd"));
    assert!(!same("abc", "ab"));
    assert!(!same("", "a"));
}

#[test]
fn contains_finds_a_run_anywhere() {
    assert!(contains("files.atrium.io", "atrium.io"));
    assert!(contains("files.atrium.io", "files"));
    assert!(contains("files.atrium.io", "s.a"));
    assert!(contains("files.atrium.io", "files.atrium.io"));
    assert!(contains("aab", "ab"));
    assert!(!contains("files.atrium.io", "atrium.iox"));
    assert!(!contains("files", "files.atrium.io"));
    assert!(!contains("abab", "ba b"));
}

#[test]
fn empty_text_is_contained_in_every_text() {
    assert!(contains("", ""));
    assert!(contains("abc", ""));
    assert!(!contains("", "a"));
}

#[test]
fn starts_with_holds_the_text_to_its_beginning() {
    assert!(starts_with("https://x", "https://"));
    assert!(starts_with("https://", "https://"));
    assert!(starts_with("anything", ""));
    assert!(!starts_with("http://x", "https://"));
    assert!(!starts_with("xhttps://", "https://"));
    assert!(!starts_with("http", "https://"));
}

#[test]
fn before_char_stops_at_the_first() {
    assert_eq!(before_char("a:b:c", ':'), "a");
    assert_eq!(before_char("abc", ':'), "abc");
    assert_eq!(before_char(":abc", ':'), "");
    assert_eq!(before_char("", ':'), "");
    assert_eq!(before_char("h\u{e9}:x", ':'), "h\u{e9}");
}

#[test]
fn lower_case_touches_ascii_capitals_only() {
    assert_eq!(to_lowercase("Files.ATRIUM.io:8080"), "files.atrium.io:8080");
    assert_eq!(to_lowercase("AZ@[`{az09"), "az@[`{az09");
    assert_eq!(to_lowercase("\u{c9}t\u{e9}"), "\u{c9}t\u{e9}");
    assert_eq!(to_lowercase(""), "");
}

#[test]
fn decimal_numerals() {
    assert_eq!(u64_decimal(0), "0");
    assert_eq!(u64_decimal(9), "9");
    assert_eq!(u64_decimal(10), "10");
    assert_eq!(u64_decimal(8080), "8080");
    assert_eq!(u64_decimal(u64::MAX), "18446744073709551615");
}

#[test]
fn strings_are_copied_in_order() {
    let v = vec!["b".to_string(), "a".to_string(), String::new()];
    assert_eq!(clone_strings(&v), v);
    assert!(clone_strings(&vec![]).is_empty());
}
