//! Building text.

use fedqrs::text::{
    clip, decimal_text, esc, join, pad, quote_ident, same, signed_decimal_text, split_at_char,
};
use fedqrs::text_map::TextMap;

#[test]
fn identifiers_are_quoted() {
    assert_eq!(quote_ident("a"), "\"a\"");
    assert_eq!(quote_ident(""), "\"\"");
    assert_eq!(quote_ident("a\"b"), "\"a\"\"b\"");
    assert_eq!(quote_ident("\""), "\"\"\"\"");
    assert_ne!(quote_ident("a\""), quote_ident("a\"\""));
}

#[test]
fn literals_are_escaped() {
    assert_eq!(esc("it's"), "it''s");
    assert_eq!(esc("''"), "''''");
    assert_eq!(esc("a\"b"), "a\"b");
    assert_eq!(esc("größe"), "größe");
}

#[test]
fn texts_are_joined() {
    let parts = |list: &[&str]| -> Vec<String> { list.iter().map(|s| s.to_string()).collect() };
    assert_eq!(join(&parts(&[]), ", "), "");
    assert_eq!(join(&parts(&["a"]), ", "), "a");
    assert_eq!(join(&parts(&["a", "", "c"]), ", "), "a, , c");
}

#[test]
fn numbers_are_written_in_decimal() {
    assert_eq!(decimal_text(0), "0");
    assert_eq!(decimal_text(9), "9");
    assert_eq!(decimal_text(10), "10");
    assert_eq!(decimal_text(1_002_003), "1002003");
    assert_eq!(decimal_text(u64::MAX), "18446744073709551615");
    assert_eq!(signed_decimal_text(-128), "-128");
    assert_eq!(signed_decimal_text(7), "7");
    for n in 0u64..2000 {
        assert_eq!(decimal_text(n), n.to_string());
    }
}

#[test]
fn texts_are_padded_and_clipped() {
    assert_eq!(pad("pg", 6), "pg    ");
    assert_eq!(pad("postgres", 6), "postgres");
    assert_eq!(pad("größe", 6), "größe ");
    assert_eq!(clip("abcdef", 3), "abc");
    assert_eq!(clip("ab", 3), "ab");
    assert_eq!(clip("äöüß", 2), "äö");
    assert_eq!(clip("abc", 0), "");
}

#[test]
fn texts_are_compared_and_cut() {
    assert!(same("a", "a"));
    assert!(!same("a", "A"));
    assert!(!same("a", "ab"));
    assert_eq!(split_at_char("k=v=w", '='), Some(("k".to_string(), "v=w".to_string())));
    assert_eq!(split_at_char("=", '='), Some((String::new(), String::new())));
    assert_eq!(split_at_char("kv", '='), None);
}

#[test]
fn maps_keep_the_last_value() {
    let mut map: TextMap<u32> = TextMap::new();
    assert!(map.get("a").is_none());
    map.insert("a".to_string(), 1);
    map.insert("b".to_string(), 2);
    map.insert("a".to_string(), 3);
    assert_eq!(map.get("a"), Some(&3));
    assert_eq!(map.get("b"), Some(&2));
    assert!(map.contains_key("b") && !map.contains_key("c"));
    assert_eq!(map.remove("a"), Some(3));
    assert_eq!(map.remove("a"), None);
    assert_eq!(map.get("b"), Some(&2));
}
