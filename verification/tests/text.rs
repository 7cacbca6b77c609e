use chronos_core::text::{chars_of, contains_str, decimal_string};

#[test]
fn decimal_rendering() {
    assert_eq!(decimal_string(0), "0");
    assert_eq!(decimal_string(7), "7");
    assert_eq!(decimal_string(10), "10");
    assert_eq!(decimal_string(1234), "1234");
    assert_eq!(decimal_string(u64::MAX), u64::MAX.to_string());
}

#[test]
fn substring_search() {
    assert!(contains_str("write a prime test", "prime"));
    assert!(contains_str("prime", "prime"));
    assert!(!contains_str("prim", "prime"));
    assert!(contains_str("abc", ""));
    assert!(contains_str("", ""));
    assert!(!contains_str("", "a"));
    assert!(contains_str("یک عدد اول", "عدد اول"));
    assert!(!contains_str("aab", "abb"));
}

#[test]
fn characters_of_a_string() {
    assert_eq!(chars_of("héllo"), vec!['h', 'é', 'l', 'l', 'o']);
    assert!(chars_of("").is_empty());
}
