use rev_idle::global_state::GlobalStore;

#[test]
fn set_then_get_round_trips_the_value() {
    let mut store = GlobalStore::new();
    store.set("count".to_owned(), "1").unwrap();
    assert_eq!(store.get("count"), Some("1".to_string()));
    store.delete("count");
}

#[test]
fn missing_key_returns_none() {
    let store = GlobalStore::new();
    assert_eq!(store.get("missing-key"), None);
}

#[test]
fn delete_removes_the_key() {
    let mut store = GlobalStore::new();
    store.set("temp".to_owned(), "true").unwrap();
    assert!(store.delete("temp"));
    assert_eq!(store.get("temp"), None);
    assert!(!store.delete("temp"));
}

#[test]
fn keys_lists_every_stored_key() {
    let mut store = GlobalStore::new();
    store.set("b".to_owned(), "2").unwrap();
    store.set("a".to_owned(), "1").unwrap();
    assert_eq!(store.keys(), vec!["a".to_owned(), "b".to_owned()]);
}

#[test]
fn stored_json_is_written_back_compactly_and_invalid_json_is_refused() {
    let mut store = GlobalStore::new();
    store.set("obj".to_owned(), "{ \"x\" : [1, 2] }").unwrap();
    assert_eq!(store.get("obj"), Some("{\"x\":[1,2]}".to_string()));
    let error = store.set("bad".to_owned(), "{").unwrap_err();
    assert!(!error.is_empty());
    assert_eq!(store.get("bad"), None);
    store.set("obj".to_owned(), "null").unwrap();
    assert_eq!(store.get("obj"), Some("null".to_string()));
    assert_eq!(store.keys(), vec!["obj".to_owned()]);
}

#[test]
fn a_reading_is_stored_as_given_and_a_failed_one_changes_nothing() {
    let mut store = GlobalStore::new();
    assert_eq!(store.store_reading("k".to_string(), Ok("[1,2]".to_string())), Ok(()));
    assert_eq!(store.get("k"), Some("[1,2]".to_string()));
    assert_eq!(store.store_reading("k".to_string(), Err("bad".to_string())), Err("bad".to_string()));
    assert_eq!(store.get("k"), Some("[1,2]".to_string()));
    assert_eq!(store.keys(), vec!["k".to_string()]);
}
