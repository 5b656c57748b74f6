use sts_profile_auth::{RawProfileTable, StrMap};

#[test]
fn new_map_is_empty() {
    let m: StrMap<String> = StrMap::new();
    assert_eq!(m.len(), 0);
    assert!(m.is_empty());
    assert!(m.get("a").is_none());
    assert!(!m.contains_key("a"));
    assert!(m.entry_at(0).is_none());
}

#[test]
fn insert_then_get_gives_the_value() {
    let mut m: StrMap<String> = StrMap::new();
    m.insert("a".to_string(), "1".to_string());
    m.insert("b".to_string(), "2".to_string());
    assert_eq!(m.len(), 2);
    assert!(!m.is_empty());
    assert_eq!(m.get("a").unwrap(), "1");
    assert_eq!(m.get("b").unwrap(), "2");
    assert!(m.get("c").is_none());
    assert!(m.contains_key("b"));
}

#[test]
fn insert_of_a_known_key_replaces_its_value_in_place() {
    let mut m: StrMap<String> = StrMap::new();
    m.insert("a".to_string(), "1".to_string());
    m.insert("b".to_string(), "2".to_string());
    m.insert("a".to_string(), "3".to_string());
    assert_eq!(m.len(), 2);
    assert_eq!(m.get("a").unwrap(), "3");
    let (k0, v0) = m.entry_at(0).unwrap();
    let (k1, v1) = m.entry_at(1).unwrap();
    assert_eq!((k0.as_str(), v0.as_str()), ("a", "3"));
    assert_eq!((k1.as_str(), v1.as_str()), ("b", "2"));
    assert!(m.entry_at(2).is_none());
}

#[test]
fn keys_are_case_sensitive() {
    let mut m: StrMap<String> = StrMap::new();
    m.insert("Default".to_string(), "1".to_string());
    assert!(m.get("default").is_none());
    assert!(m.contains_key("Default"));
}

#[test]
fn empty_string_is_a_key_like_any_other() {
    let mut m: StrMap<String> = StrMap::new();
    m.insert(String::new(), "1".to_string());
    assert_eq!(m.get("").unwrap(), "1");
    assert_eq!(m.len(), 1);
}

#[test]
fn insert_into_creates_the_inner_map() {
    let mut t: RawProfileTable = StrMap::new();
    t.insert_into("p", "k".to_string(), "v".to_string());
    assert_eq!(t.len(), 1);
    assert_eq!(t.get("p").unwrap().get("k").unwrap(), "v");
}

#[test]
fn insert_into_adds_to_the_inner_map_that_is_there() {
    let mut t: RawProfileTable = StrMap::new();
    t.insert_into("p", "k".to_string(), "v".to_string());
    t.insert_into("q", "k".to_string(), "w".to_string());
    t.insert_into("p", "j".to_string(), "x".to_string());
    t.insert_into("p", "k".to_string(), "y".to_string());
    assert_eq!(t.len(), 2);
    let p = t.get("p").unwrap();
    assert_eq!(p.len(), 2);
    assert_eq!(p.get("k").unwrap(), "y");
    assert_eq!(p.get("j").unwrap(), "x");
    assert_eq!(t.get("q").unwrap().get("k").unwrap(), "w");
}
