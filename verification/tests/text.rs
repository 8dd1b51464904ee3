use std::time::Duration;

use celeborn_client::string_map::{same_text, StringMap};
use celeborn_client::text::{
    address, append_hex, append_i64, append_u64, contains_char, join, shuffle_key, shuffle_of_key,
};
use celeborn_client::time::{as_millis_i64, as_millis_u64};

#[test]
fn numbers_are_written_in_decimal() {
    let mut s = String::new();
    append_u64(&mut s, 0);
    append_u64(&mut s, u64::MAX);
    assert_eq!(s, "018446744073709551615");
    let mut s = String::new();
    append_i64(&mut s, -42);
    append_i64(&mut s, i64::MIN);
    assert_eq!(s, "-42-9223372036854775808");
    let mut s = String::new();
    append_hex(&mut s, 0x0A);
    append_hex(&mut s, 0xFF);
    assert_eq!(s.to_lowercase(), "0aff");
}

#[test]
fn addresses_and_keys() {
    assert_eq!(address("h", 9097), "h:9097");
    assert_eq!(shuffle_key("app-7", 42), "app-7-42");
    assert_eq!(shuffle_of_key("app-7-42"), 42);
    assert_eq!(shuffle_of_key("nothing"), 0);
    assert_eq!(join("a", "b"), "ab");
    assert!(contains_char("a:b", ':'));
    assert!(!contains_char("ab", ':'));
}

#[test]
fn tables_by_text() {
    let mut m: StringMap<i32> = StringMap::new();
    assert_eq!(m.insert("a".to_string(), 1), None);
    assert_eq!(m.insert("b".to_string(), 2), None);
    assert_eq!(m.insert("a".to_string(), 3), Some(1));
    assert_eq!(m.len(), 2);
    assert_eq!(m.get("a"), Some(&3));
    assert_eq!(m.get("c"), None);
    assert!(m.contains_key("b"));
    let mut keys = m.keys();
    keys.sort();
    assert_eq!(keys, vec!["a", "b"]);
    assert_eq!(m.remove("a"), Some(3));
    assert_eq!(m.remove("a"), None);
    m.clear();
    assert_eq!(m.len(), 0);
    assert!(same_text("x", "x"));
    assert!(!same_text("x", "xy"));
}

#[test]
fn durations_in_milliseconds() {
    assert_eq!(as_millis_u64(&Duration::new(2, 3_999_999)), 2003);
    assert_eq!(as_millis_i64(&Duration::from_secs(5)), 5000);
}
