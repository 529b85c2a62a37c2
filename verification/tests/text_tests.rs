use qview::gentoo::package::PackageKey;
use qview::widgets::search_popup::matching_positions;
use qview::text::{
    contains_str, parse_i64, parse_usize, same_text, split_lines, split_once, split_words,
    trimmed,
};

#[test]
fn words_split_on_any_whitespace() {
    assert_eq!(split_words("  app-editors/vim\tsys-apps/portage \n"), vec!["app-editors/vim", "sys-apps/portage"]);
    assert_eq!(split_words("\u{3000}x\u{a0}y"), vec!["x", "y"]);
    assert!(split_words("   ").is_empty());
    assert!(split_words("").is_empty());
}

#[test]
fn lines_follow_str_lines() {
    assert_eq!(split_lines("a\r\nb\n\nc"), vec!["a", "b", "", "c"]);
    assert_eq!(split_lines("a\n"), vec!["a"]);
    assert_eq!(split_lines("x\r"), vec!["x\r"]);
    assert_eq!(split_lines("\n"), vec![""]);
    assert!(split_lines("").is_empty());
}

#[test]
fn trimming_removes_unicode_whitespace() {
    assert_eq!(trimmed("  hello world \n"), "hello world");
    assert_eq!(trimmed("\u{2003}x\u{85}"), "x");
    assert_eq!(trimmed(" \t "), "");
}

#[test]
fn split_once_uses_the_first_separator() {
    assert_eq!(split_once("a=b=c", '='), Some(("a".to_string(), "b=c".to_string())));
    assert_eq!(split_once("=v", '='), Some(("".to_string(), "v".to_string())));
    assert_eq!(split_once("none", '='), None);
}

#[test]
fn substring_search() {
    assert!(contains_str("app-editors/vim", "vim"));
    assert!(contains_str("abc", ""));
    assert!(!contains_str("abc", "abcd"));
    assert!(!contains_str("abc", "ac"));
    assert!(same_text("é", "é"));
    assert!(!same_text("a", "b"));
}

#[test]
fn lowercasing_changes_case() {
    let upper = PackageKey { category: "App-Editors".to_string(), name: "VIM".to_string() };
    let lower = PackageKey { category: "app-editors".to_string(), name: "emacs".to_string() };
    assert_eq!(matching_positions(&vec![&upper, &lower], "app-editors/vim"), vec![0]);
    assert_eq!(matching_positions(&vec![&upper, &lower], "EMACS"), vec![1]);
}

#[test]
fn unsigned_parsing_follows_std() {
    assert_eq!(parse_usize("42"), Some(42));
    assert_eq!(parse_usize("+7"), Some(7));
    assert_eq!(parse_usize("007"), Some(7));
    assert_eq!(parse_usize("-1"), None);
    assert_eq!(parse_usize(""), None);
    assert_eq!(parse_usize("+"), None);
    assert_eq!(parse_usize("1 2"), None);
    assert_eq!(parse_usize(&usize::MAX.to_string()), Some(usize::MAX));
    assert_eq!(parse_usize("340282366920938463463374607431768211456"), None);
    for s in ["0", "12", "+3", "x", "-0", "99999999999999999999999"] {
        assert_eq!(parse_usize(s), s.parse::<usize>().ok());
    }
}

#[test]
fn signed_parsing_follows_std() {
    assert_eq!(parse_i64("-9223372036854775808"), Some(i64::MIN));
    assert_eq!(parse_i64("9223372036854775807"), Some(i64::MAX));
    assert_eq!(parse_i64("9223372036854775808"), None);
    assert_eq!(parse_i64("-9223372036854775809"), None);
    assert_eq!(parse_i64("-0"), Some(0));
    assert_eq!(parse_i64("-"), None);
    assert_eq!(parse_i64("+12"), Some(12));
    for s in ["1700000000", "-5", "+", "1.5", " 1", "--1"] {
        assert_eq!(parse_i64(s), s.parse::<i64>().ok());
    }
}

