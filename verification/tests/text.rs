use move_scanner::stackless_bytecode_generator::is_framework_module;
use move_scanner::text::{chars_of, str_contains, str_equals, str_starts_with};

#[test]
fn contains_finds_inner_runs() {
    assert!(str_contains("name = \"sui-framework\"", "sui"));
    assert!(str_contains("abc", "abc"));
    assert!(str_contains("abc", ""));
    assert!(str_contains("", ""));
    assert!(!str_contains("", "a"));
    assert!(!str_contains("ab", "abc"));
    assert!(!str_contains("s u i", "sui"));
}

#[test]
fn contains_works_on_characters() {
    assert!(str_contains("模块 sui", "sui"));
    assert!(str_contains("列表中包含", "包含"));
}

#[test]
fn equality_and_characters() {
    assert!(str_equals("sqrt", "sqrt"));
    assert!(!str_equals("sqrt", "sqr"));
    assert_eq!(chars_of("a列b"), vec!['a', '列', 'b']);
    assert_eq!(chars_of(""), Vec::<char>::new());
}

#[test]
fn prefixes() {
    assert!(str_starts_with("0x1::coin", "0x1"));
    assert!(str_starts_with("abc", ""));
    assert!(!str_starts_with("0x", "0x1"));
    assert!(!str_starts_with("0x2::coin", "0x1"));
}

#[test]
fn framework_modules() {
    assert!(is_framework_module("0x1::vector"));
    assert!(!is_framework_module("0x2::coin"));
    assert!(!is_framework_module("0x"));
}
