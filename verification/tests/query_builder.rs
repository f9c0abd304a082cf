use websurfx::engines::common::build_cookie;
use websurfx::engines::common::build_query;
use websurfx::text::contains_str;
use websurfx::text::join;
use websurfx::text::trim;
use websurfx::text::u64_to_dec;

fn pairs(ps: &[(&str, &str)]) -> Vec<(String, String)> {
    ps.iter().map(|(k, v)| (k.to_string(), v.to_string())).collect()
}

#[test]
fn build_query_empty_is_empty() {
    assert_eq!(build_query(&pairs(&[])), "");
}

#[test]
fn build_query_concrete() {
    let q = build_query(&pairs(&[("a", "1"), ("key", "value"), ("b", "")]));
    assert_eq!(q, "&a=1&key=value&b=");
}

#[test]
fn build_query_length_formula() {
    // Each pair contributes 2 + len(k) + len(v) characters.
    let ps = [("alpha", "x"), ("b", "yz"), ("c", "")];
    let q = build_query(&pairs(&ps));
    let expected: usize = ps.iter().map(|(k, v)| 2 + k.len() + v.len()).sum();
    assert_eq!(q.len(), expected);
}

#[test]
fn build_query_preserves_order() {
    let q = build_query(&pairs(&[("z", "1"), ("a", "2")]));
    assert_eq!(q, "&z=1&a=2");
    let z = q.find("z=1").unwrap();
    let a = q.find("a=2").unwrap();
    assert!(z < a);
}

#[test]
fn build_cookie_empty_is_empty() {
    assert_eq!(build_cookie(&pairs(&[])), "");
}

#[test]
fn build_cookie_concrete() {
    let c = build_cookie(&pairs(&[("a", "1"), ("b", "2")]));
    assert_eq!(c, "a=1; b=2; ");
}

#[test]
fn build_cookie_ends_with_separator_and_keeps_order() {
    let c = build_cookie(&pairs(&[("z", "9"), ("y", "8"), ("x", "7")]));
    assert!(c.ends_with("; "));
    let z = c.find("z=9;").unwrap();
    let y = c.find("y=8;").unwrap();
    let x = c.find("x=7;").unwrap();
    assert!(z < y && y < x);
}

#[test]
fn decimal_formatting() {
    assert_eq!(u64_to_dec(0), "0");
    assert_eq!(u64_to_dec(7), "7");
    assert_eq!(u64_to_dec(10), "10");
    assert_eq!(u64_to_dec(12345), "12345");
    assert_eq!(u64_to_dec(18446744073709551615), "18446744073709551615");
}

#[test]
fn trim_removes_surrounding_whitespace() {
    assert_eq!(trim("  hello world \t\n"), "hello world");
    assert_eq!(trim(""), "");
    assert_eq!(trim(" \u{a0} x"), "x");
    assert_eq!(trim("inner  kept"), "inner  kept");
}

#[test]
fn contains_str_finds_substrings() {
    assert!(contains_str("No pages found matching: x", "No pages found matching:"));
    assert!(contains_str("abc", ""));
    assert!(!contains_str("abc", "abcd"));
    assert!(!contains_str("hello", "world"));
}

#[test]
fn join_with_separator() {
    assert_eq!(join(&vec![], ","), "");
    assert_eq!(join(&vec!["a"], ","), "a");
    assert_eq!(join(&vec!["Bing", "Brave"], "%2C"), "Bing%2CBrave");
}
