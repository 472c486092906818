use resource_mirror::object::{ObjectRef, RemoteObject};
use resource_mirror::store::Store;

fn record(namespace: &str, name: &str, image: Option<&str>) -> RemoteObject {
    RemoteObject {
        namespace: namespace.to_string(),
        name: name.to_string(),
        image: image.map(|s| s.to_string()),
    }
}

fn key(namespace: &str, name: &str) -> ObjectRef {
    ObjectRef::new(namespace.to_string(), name.to_string())
}

#[test]
fn empty_store_has_nothing() {
    let s = Store::new();
    assert!(s.get(&key("a", "x")).is_none());
    assert!(s.list().is_empty());
    assert!(s.list_entries().is_empty());
}

#[test]
fn upsert_then_get_returns_the_record() {
    let mut s = Store::new();
    s.apply(&key("a", "x"), Some(record("a", "x", Some("nginx:1.25"))));
    let got = s.get(&key("a", "x")).unwrap();
    assert_eq!(got.namespace, "a");
    assert_eq!(got.name, "x");
    assert_eq!(got.image.as_deref(), Some("nginx:1.25"));
}

#[test]
fn last_apply_to_a_key_wins() {
    let mut s = Store::new();
    s.apply(&key("a", "x"), Some(record("a", "x", Some("nginx:1.25"))));
    s.apply(&key("a", "x"), Some(record("a", "x", Some("nginx:1.26"))));
    let got = s.get(&key("a", "x")).unwrap();
    assert_eq!(got.image.as_deref(), Some("nginx:1.26"));

    s.apply(&key("a", "x"), None);
    assert!(s.get(&key("a", "x")).is_none());
}

#[test]
fn applies_to_other_keys_do_not_interfere() {
    let mut s = Store::new();
    s.apply(&key("a", "x"), Some(record("a", "x", Some("app:1"))));
    s.apply(&key("b", "x"), Some(record("b", "x", Some("app:2"))));
    s.apply(&key("a", "y"), Some(record("a", "y", Some("app:3"))));
    s.apply(&key("b", "x"), None);
    let got = s.get(&key("a", "x")).unwrap();
    assert_eq!(got.image.as_deref(), Some("app:1"));
    assert!(s.get(&key("b", "x")).is_none());
    assert_eq!(s.list().len(), 2);
}

#[test]
fn delete_of_absent_key_is_a_no_op() {
    let mut s = Store::new();
    s.apply(&key("a", "x"), Some(record("a", "x", None)));
    s.apply(&key("a", "y"), None);
    assert_eq!(s.list().len(), 1);
}

#[test]
fn list_is_a_complete_snapshot() {
    let mut s = Store::new();
    s.apply(&key("a", "x"), Some(record("a", "x", Some("app:1"))));
    s.apply(&key("b", "y"), Some(record("b", "y", Some("app:2"))));
    let before = s.list();
    assert_eq!(before.len(), 2);
    s.apply(&key("c", "z"), Some(record("c", "z", Some("app:3"))));
    let after = s.list();
    assert_eq!(after.len(), 3);
    // the earlier snapshot is unaffected by the later apply
    assert_eq!(before.len(), 2);
    let mut names: Vec<String> = after.iter().map(|o| o.name.clone()).collect();
    names.sort();
    assert_eq!(names, vec!["x".to_string(), "y".to_string(), "z".to_string()]);
}

#[test]
fn replace_all_discards_prior_contents() {
    let mut s = Store::new();
    s.apply(&key("a", "x"), Some(record("a", "x", Some("app:1"))));
    s.replace_all(vec![record("b", "y", Some("app:2"))]);
    assert!(s.get(&key("a", "x")).is_none());
    assert!(s.get(&key("b", "y")).is_some());
    assert_eq!(s.list().len(), 1);
}

#[test]
fn replace_all_keeps_the_later_duplicate() {
    let mut s = Store::new();
    s.replace_all(vec![
        record("a", "x", Some("app:1")),
        record("a", "x", Some("app:2")),
    ]);
    assert_eq!(s.list().len(), 1);
    let got = s.get(&key("a", "x")).unwrap();
    assert_eq!(got.image.as_deref(), Some("app:2"));
}

#[test]
fn key_equality_is_structural() {
    assert!(key("a", "x").key_eq(&key("a", "x")));
    assert!(!key("a", "x").key_eq(&key("a", "y")));
    assert!(!key("a", "x").key_eq(&key("b", "x")));
}

#[test]
fn get_entry_projects_the_record() {
    let mut s = Store::new();
    s.apply(&key("a", "x"), Some(record("a", "x", Some("nginx:1.25"))));
    let e = s.get_entry("a".to_string(), "x".to_string()).unwrap();
    assert_eq!(e.container, "nginx");
    assert_eq!(e.version, "1.25");
    assert!(s.get_entry("a".to_string(), "y".to_string()).is_none());
}

#[test]
fn unprojectable_record_is_absent_from_entries() {
    let mut s = Store::new();
    s.apply(&key("a", "x"), Some(record("a", "x", None)));
    s.apply(&key("a", "y"), Some(record("a", "y", Some("app:1"))));
    // present as a raw record, absent from every projected view
    assert!(s.get(&key("a", "x")).is_some());
    assert!(s.get_entry("a".to_string(), "x".to_string()).is_none());
    let entries = s.list_entries();
    assert_eq!(entries.len(), 1);
    assert_eq!(entries[0].name, "y");
}
