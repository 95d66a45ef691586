use starred_repos::cache::CacheStore;

#[test]
fn write_then_read_is_byte_identical() {
    let mut store = CacheStore::new();
    let body = "[{\"name\":\"x\"}]\n\u{1F600} raw bytes".to_string();
    store.write("alice".to_string(), body.clone());
    assert_eq!(store.read(&"alice".to_string()), Some(body));
}

#[test]
fn read_missing_user_is_none() {
    let store = CacheStore::new();
    assert_eq!(store.read(&"nobody".to_string()), None);
}

#[test]
fn rewrite_replaces_stored_body() {
    let mut store = CacheStore::new();
    store.write("alice".to_string(), "first".to_string());
    store.write("alice".to_string(), "second".to_string());
    assert_eq!(store.read(&"alice".to_string()), Some("second".to_string()));
}

#[test]
fn users_are_kept_apart() {
    let mut store = CacheStore::new();
    store.write("alice".to_string(), "a-body".to_string());
    store.write("bob".to_string(), "b-body".to_string());
    assert_eq!(store.read(&"alice".to_string()), Some("a-body".to_string()));
    assert_eq!(store.read(&"bob".to_string()), Some("b-body".to_string()));
}

#[test]
fn clear_removes_every_user() {
    let mut store = CacheStore::new();
    store.write("alice".to_string(), "a-body".to_string());
    store.write("bob".to_string(), "b-body".to_string());
    store.clear();
    assert_eq!(store.read(&"alice".to_string()), None);
    assert_eq!(store.read(&"bob".to_string()), None);
    assert!(!store.contains(&"alice".to_string()));
}

#[test]
fn contains_tracks_writes() {
    let mut store = CacheStore::new();
    assert!(!store.contains(&"alice".to_string()));
    store.write("alice".to_string(), "body".to_string());
    assert!(store.contains(&"alice".to_string()));
}
