use invoker::symbols::SymbolMap;

#[test]
fn insert_and_lookup() {
    let mut m: SymbolMap<i32> = SymbolMap::new();
    assert_eq!(m.get("a"), None);
    m.insert("a".to_string(), 1);
    m.insert("b".to_string(), 2);
    assert_eq!(m.get("a"), Some(&1));
    assert_eq!(m.get("b"), Some(&2));
    assert_eq!(m.get("c"), None);
}

#[test]
fn insert_replaces_and_keeps_order() {
    let mut m: SymbolMap<&str> = SymbolMap::new();
    m.insert("x".to_string(), "first");
    m.insert("y".to_string(), "second");
    m.insert("x".to_string(), "third");
    assert_eq!(m.get("x"), Some(&"third"));
    assert_eq!(m.get("y"), Some(&"second"));
    let names: Vec<&str> = m.entries().iter().map(|(k, _)| k.as_str()).collect();
    assert_eq!(names, vec!["x", "y"]);
}

#[test]
fn names_in_first_insertion_order() {
    let mut m: SymbolMap<u8> = SymbolMap::new();
    for (k, v) in [("c", 1), ("a", 2), ("c", 3), ("b", 4), ("a", 5)] {
        m.insert(k.to_string(), v);
    }
    let entries: Vec<(&str, u8)> = m.entries().iter().map(|(k, v)| (k.as_str(), *v)).collect();
    assert_eq!(entries, vec![("c", 3), ("a", 5), ("b", 4)]);
}
