use freezer_rs::table::{NameSet, PackageTable};

#[test]
fn insert_updates_in_place() {
    let mut t = PackageTable::new();
    t.insert("com.a", 10001);
    t.insert("com.b", 10002);
    t.insert("com.a", 10003);
    assert_eq!(t.len(), 2);
    assert_eq!(t.key_at(0), "com.a");
    assert_eq!(t.value_at(0), 10003);
    assert_eq!(t.get("com.b"), Some(10002));
    assert_eq!(t.get("com.c"), None);
    assert!(t.contains_key("com.a"));
    let c = t.copy();
    assert_eq!(c.len(), 2);
    assert_eq!(c.key_at(1), "com.b");
}

#[test]
fn name_set_has_no_repeats() {
    let mut n = NameSet::new();
    n.insert("com.a");
    n.insert("com.a");
    n.insert("com.b");
    assert_eq!(n.len(), 2);
    assert!(n.contains("com.b"));
    assert!(!n.contains("com.c"));
    assert_eq!(n.name_at(0), "com.a");
}
