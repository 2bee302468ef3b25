use gup::digits::u32_digits;
use gup::text::{str_contains, str_eq, str_starts_with, str_trim};

#[test]
fn str_eq_compares_by_characters() {
    assert!(str_eq("team", "team"));
    assert!(!str_eq("team", "tea"));
    assert!(!str_eq("team", "teal"));
    assert!(str_eq("", ""));
}

#[test]
fn str_starts_with_checks_the_prefix() {
    assert!(str_starts_with("## main...origin", "## "));
    assert!(!str_starts_with("#main", "## "));
    assert!(str_starts_with("anything", ""));
    assert!(!str_starts_with("", "x"));
}

#[test]
fn str_contains_finds_the_needle_anywhere() {
    assert!(str_contains("a/pull/7", "/pull/"));
    assert!(!str_contains("a/pulls", "/pull/"));
    assert!(str_contains("abc", ""));
    assert!(str_contains("aab", "ab"));
}

#[test]
fn str_trim_takes_whitespace_off_both_ends() {
    assert_eq!(str_trim("  a b \t\r\n"), "a b");
    assert_eq!(str_trim("ab"), "ab");
    assert_eq!(str_trim(" \t "), "");
    assert_eq!(str_trim(""), "");
}

#[test]
fn u32_digits_renders_decimal() {
    assert_eq!(u32_digits(0), "0");
    assert_eq!(u32_digits(10), "10");
    assert_eq!(u32_digits(4294967295), "4294967295");
}
