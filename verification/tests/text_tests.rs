use replayd::text::{contains, join, starts_with, trim, u64_to_string};

fn s(v: Vec<char>) -> String {
    v.into_iter().collect()
}

#[test]
fn trim_removes_unicode_whitespace_at_both_ends() {
    assert_eq!(s(trim("  get/db\n")), "get/db");
    assert_eq!(s(trim("\u{3000}a b\u{a0}")), "a b");
    assert_eq!(s(trim("   ")), "");
    assert_eq!(s(trim("")), "");
    assert_eq!(s(trim("x")), "x");
}

#[test]
fn substring_search() {
    assert!(contains("steam -applaunch 730", "-applaunch"));
    assert!(contains("abc", ""));
    assert!(!contains("ab", "abc"));
    assert!(!contains("abc", "cb"));
    assert!(starts_with("// comment", "//"));
    assert!(!starts_with("/ x", "//"));
}

#[test]
fn join_with_separator() {
    let v = vec!["a".to_string(), "b".to_string(), "c".to_string()];
    assert_eq!(s(join(&v, " ")), "a b c");
    assert_eq!(s(join(&Vec::new(), " ")), "");
    assert_eq!(s(join(&vec!["only".to_string()], ", ")), "only");
}

#[test]
fn decimal_numbers() {
    assert_eq!(u64_to_string(0), "0");
    assert_eq!(u64_to_string(60), "60");
    assert_eq!(u64_to_string(u64::MAX), "18446744073709551615");
}
