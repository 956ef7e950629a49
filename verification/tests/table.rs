use symphony::table::{Table, TextSet};

#[test]
fn a_table_keeps_one_value_per_key() {
    let mut t: Table<u32> = Table::new();
    assert_eq!(t.len(), 0);
    t.insert("a", 1);
    t.insert("b", 2);
    t.insert("a", 3);
    assert_eq!(t.len(), 2);
    assert_eq!(t.get("a").copied(), Some(3));
    assert_eq!(t.get("c").copied(), None);
    assert_eq!(t.key_at(0), "a");
    assert_eq!(*t.value_at(1), 2);
    assert_eq!(t.remove("a"), Some(3));
    assert_eq!(t.remove("a"), None);
    assert!(!t.contains_key("a"));
    assert!(t.contains_key("b"));
    assert_eq!(t.len(), 1);
}

#[test]
fn a_set_holds_each_text_once() {
    let mut s = TextSet::new();
    s.insert("a");
    s.insert("a");
    s.insert("b");
    assert_eq!(s.len(), 2);
    assert!(s.contains("a"));
    assert!(s.remove("a"));
    assert!(!s.remove("a"));
    assert!(!s.contains("a"));
    assert_eq!(s.len(), 1);
}
