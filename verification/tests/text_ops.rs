use reflect_scan::text::{
    join_segments, str_contains, str_ends_with, str_eq, str_starts_with, strip_end_once,
};

#[test]
fn string_equality() {
    assert!(str_eq("widgets", "widgets"));
    assert!(!str_eq("widgets", "widget"));
    assert!(!str_eq("widgets", "gadgets"));
    assert!(str_eq("", ""));
}

#[test]
fn prefix_and_suffix_tests() {
    assert!(str_starts_with("bevy_core", "bevy_"));
    assert!(!str_starts_with("core_bevy", "bevy_"));
    assert!(str_starts_with("anything", ""));
    assert!(str_ends_with("lib.rs", ".rs"));
    assert!(!str_ends_with("lib.rson", ".rs"));
    assert!(!str_ends_with("rs", ".rs"));
}

#[test]
fn substring_search() {
    assert!(str_contains("all(test, doc)", "test"));
    assert!(str_contains("test", "test"));
    assert!(str_contains("anything", ""));
    assert!(!str_contains("tes", "test"));
    assert!(!str_contains("feature = \"serialize\"", "test"));
}

#[test]
fn stripping_removes_one_suffix_at_most() {
    assert_eq!(strip_end_once("bar.rs", ".rs"), "bar");
    assert_eq!(strip_end_once("bar.rs.rs", ".rs"), "bar.rs");
    assert_eq!(strip_end_once("mod.rs", ".rs"), "mod");
    assert_eq!(strip_end_once("bar", ".rs"), "bar");
    assert_eq!(strip_end_once("bar", ""), "bar");
    assert_eq!(strip_end_once(".rs", ".rs"), "");
}

#[test]
fn joining_segments() {
    let none: Vec<String> = vec![];
    assert_eq!(join_segments(&none, "::"), "");
    let one = vec!["foo".to_string()];
    assert_eq!(join_segments(&one, "::"), "foo");
    let three = vec!["a".to_string(), "b".to_string(), "c".to_string()];
    assert_eq!(join_segments(&three, "::"), "a::b::c");
}
