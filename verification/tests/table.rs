use arb::table::Table;

#[test]
fn a_table_gives_back_what_was_set() {
    let mut t: Table<u64> = Table::new();
    assert_eq!(t.len(), 0);
    assert!(t.get("a").is_none());
    assert!(!t.contains("a"));
    t.set("a", 1);
    t.set("b", 2);
    t.set("a", 3);
    assert_eq!(t.len(), 2);
    assert_eq!(t.get("a"), Some(&3));
    assert_eq!(t.get("b"), Some(&2));
    assert!(t.get("c").is_none());
    assert!(t.contains("b"));
}

#[test]
fn a_table_is_walked_in_the_order_of_first_use() {
    let mut t: Table<u64> = Table::new();
    for (i, k) in ["x", "b", "a", "b", "x", "z"].iter().enumerate() {
        t.set(k, i as u64);
    }
    let keys: Vec<String> = (0..t.len()).map(|i| t.key_at(i).clone()).collect();
    assert_eq!(keys, vec!["x", "b", "a", "z"]);
    assert_eq!(*t.value_at(0), 4);
    assert_eq!(t.find("a"), Some(2));
    *t.value_mut(2) = 77;
    assert_eq!(t.get("a"), Some(&77));
    assert_eq!(t.get("z"), Some(&5));
}

#[test]
fn a_table_of_many_keys() {
    let mut t: Table<usize> = Table::new();
    for i in 0..1000 {
        t.set(&format!("k{}", i), i);
    }
    for i in 0..1000 {
        assert_eq!(t.get(&format!("k{}", i)), Some(&i));
        assert_eq!(t.find(&format!("k{}", i)), Some(i));
    }
}
