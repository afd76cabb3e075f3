use git_me::text::{find_last, starts_with, str_eq, strip_newlines};

#[test]
fn str_eq_compares_contents() {
    assert!(str_eq("abc", "abc"));
    assert!(!str_eq("abc", "abd"));
    assert!(!str_eq("abc", "ab"));
    assert!(str_eq("", ""));
}

#[test]
fn starts_with_tests_the_prefix() {
    assert!(starts_with("feature/x", "feature"));
    assert!(starts_with("feature", "feature"));
    assert!(!starts_with("feat", "feature"));
    assert!(!starts_with("hotfix/x", "feature"));
    assert!(starts_with("anything", ""));
}

#[test]
fn find_last_finds_the_last_occurrence() {
    assert_eq!(find_last("a/b/c", '/'), Some(3));
    assert_eq!(find_last("a.b.c", '.'), Some(3));
    assert_eq!(find_last("abc", '/'), None);
    assert_eq!(find_last("", '.'), None);
}

#[test]
fn strip_newlines_keeps_the_rest_in_order() {
    assert_eq!(strip_newlines("a\nb\nc"), "abc");
    assert_eq!(strip_newlines("no newlines"), "no newlines");
    assert_eq!(strip_newlines("\n\n"), "");
}
