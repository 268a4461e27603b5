use shield_cli::sorted_map::{compare_bytes, same_text, KeyOrder, SortedMap};

fn text_map(pairs: &[(&str, &str)]) -> SortedMap<String> {
    let mut m = SortedMap::new();
    for (k, v) in pairs {
        m.insert(k.to_string(), v.to_string());
    }
    m
}

#[test]
fn keys_come_out_in_ascending_byte_order() {
    let m = text_map(&[("b", "2"), ("é", "4"), ("a", "1"), ("z", "3"), ("B", "0")]);
    assert_eq!(m.keys(), vec!["B", "a", "b", "z", "é"]);
    assert_eq!(m.len(), 5);
}

#[test]
fn insert_replaces_and_returns_previous_value() {
    let mut m = SortedMap::new();
    assert_eq!(m.insert("KEY".to_string(), 1u32), None);
    assert_eq!(m.insert("KEY".to_string(), 2u32), Some(1));
    assert_eq!(m.get("KEY"), Some(&2));
    assert_eq!(m.len(), 1);
}

#[test]
fn get_finds_inserted_and_misses_absent() {
    let m = text_map(&[("DATABASE_URL", "postgres://local"), ("API_KEY", "k")]);
    assert_eq!(m.get("DATABASE_URL"), Some(&"postgres://local".to_string()));
    assert_eq!(m.get("API_KEY"), Some(&"k".to_string()));
    assert_eq!(m.get("MISSING"), None);
    assert!(m.contains_key("API_KEY"));
    assert!(!m.contains_key("api_key"));
    assert_eq!(m.position("DATABASE_URL"), Some(1));
    assert_eq!(m.position("C"), None);
}

#[test]
fn new_map_is_empty() {
    let m: SortedMap<String> = SortedMap::new();
    assert!(m.is_empty());
    assert_eq!(m.len(), 0);
    assert!(m.keys().is_empty());
}

#[test]
fn from_pairs_lets_later_pairs_override() {
    let m = SortedMap::from_pairs(vec![
        ("b".to_string(), "first".to_string()),
        ("a".to_string(), "x".to_string()),
        ("b".to_string(), "second".to_string()),
    ]);
    assert_eq!(m.len(), 2);
    assert_eq!(m.get("b"), Some(&"second".to_string()));
    assert_eq!(
        m.to_pairs(),
        vec![
            ("a".to_string(), "x".to_string()),
            ("b".to_string(), "second".to_string())
        ]
    );
}

#[test]
fn key_and_value_at_follow_the_order() {
    let mut m = text_map(&[("y", "2"), ("x", "1")]);
    assert_eq!(m.key_at(0), "x");
    assert_eq!(m.value_at(1), "2");
    *m.value_at_mut(0) = "changed".to_string();
    assert_eq!(m.get("x"), Some(&"changed".to_string()));
}

#[test]
fn wipe_values_keeps_keys_and_empties_values() {
    let mut m = text_map(&[("A", "secret"), ("B", "other")]);
    m.wipe_values();
    assert_eq!(m.keys(), vec!["A", "B"]);
    assert_eq!(m.get("A"), Some(&String::new()));
    assert_eq!(m.get("B"), Some(&String::new()));
}

#[test]
fn clone_keeps_entries() {
    let m = text_map(&[("A", "1"), ("B", "2")]);
    let c = m.clone();
    assert_eq!(c.to_pairs(), m.to_pairs());
}

#[test]
fn compare_bytes_is_lexicographic() {
    assert!(matches!(compare_bytes(b"abc", b"abd"), KeyOrder::Less));
    assert!(matches!(compare_bytes(b"abd", b"abc"), KeyOrder::Greater));
    assert!(matches!(compare_bytes(b"ab", b"abc"), KeyOrder::Less));
    assert!(matches!(compare_bytes(b"abc", b"ab"), KeyOrder::Greater));
    assert!(matches!(compare_bytes(b"abc", b"abc"), KeyOrder::Equal));
    assert!(matches!(compare_bytes(b"", b""), KeyOrder::Equal));
    assert!(same_text("same", "same"));
    assert!(!same_text("same", "Same"));
}
