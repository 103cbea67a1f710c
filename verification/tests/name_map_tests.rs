use mux::name_map::NameMap;

#[test]
fn insert_keeps_names_in_order() {
    let mut m: NameMap<u32> = NameMap::new();
    assert_eq!(m.insert("misc".to_string(), 1), None);
    assert_eq!(m.insert("editor".to_string(), 2), None);
    assert_eq!(m.insert("zsh".to_string(), 3), None);
    assert_eq!(m.insert("b".to_string(), 4), None);
    let names: Vec<&str> = m.entries().iter().map(|(k, _)| k.as_str()).collect();
    assert_eq!(names, vec!["b", "editor", "misc", "zsh"]);
    assert_eq!(m.len(), 4);
}

#[test]
fn insert_replaces_and_returns_previous() {
    let mut m: NameMap<u32> = NameMap::new();
    m.insert("a".to_string(), 1);
    m.insert("b".to_string(), 2);
    assert_eq!(m.insert("a".to_string(), 10), Some(1));
    assert_eq!(m.len(), 2);
    assert_eq!(m.get("a"), Some(&10));
    assert_eq!(m.get("b"), Some(&2));
}

#[test]
fn get_after_insert() {
    let mut m: NameMap<&str> = NameMap::new();
    assert_eq!(m.get("x"), None);
    m.insert("x".to_string(), "one");
    assert_eq!(m.get("x"), Some(&"one"));
    assert_eq!(m.get("y"), None);
    m.insert("y".to_string(), "two");
    assert_eq!(m.get("x"), Some(&"one"));
    assert_eq!(m.get("y"), Some(&"two"));
}

#[test]
fn order_agrees_with_btree_map() {
    let names = ["é", "a", "Z", "aa", "", "ab", "b"];
    let mut m: NameMap<usize> = NameMap::new();
    let mut b = std::collections::BTreeMap::new();
    for (i, n) in names.iter().enumerate() {
        m.insert(n.to_string(), i);
        b.insert(n.to_string(), i);
    }
    let ours: Vec<(String, usize)> = m.entries().iter().cloned().collect();
    let theirs: Vec<(String, usize)> = b.into_iter().collect();
    assert_eq!(ours, theirs);
}

#[test]
fn single_entry() {
    let m = NameMap::single("k".to_string(), 5u8);
    assert_eq!(m.entries(), &vec![("k".to_string(), 5u8)]);
}
