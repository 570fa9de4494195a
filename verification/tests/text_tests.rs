use blenny::text::{ends_with, find_char, split_on, split_on_pair, starts_with, str_eq, trim};

#[test]
fn trim_unicode_whitespace() {
    assert_eq!(trim("  a b \t\n"), "a b");
    assert_eq!(trim("\u{3000}x\u{a0}"), "x");
    assert_eq!(trim("   "), "");
    assert_eq!(trim(""), "");
}

#[test]
fn split_keeps_empty_pieces() {
    assert_eq!(split_on("a,,b,", ','), vec!["a", "", "b", ""]);
    assert_eq!(split_on("", ','), vec![""]);
    assert_eq!(split_on_pair("a; b;c; ", ';', ' '), vec!["a", "b;c", ""]);
}

#[test]
fn string_tests() {
    assert!(str_eq("héllo", "héllo"));
    assert!(!str_eq("a", "ab"));
    assert!(starts_with("Bearer x", "Bearer "));
    assert!(!starts_with("Bear", "Bearer "));
    assert!(ends_with("x.tera", ".tera"));
    assert!(!ends_with("tera", ".tera"));
    assert_eq!(find_char("k=v=w", '='), Some(1));
    assert_eq!(find_char("kv", '='), None);
}
