//! The embedded store's own operations, compare-and-swap above all.

use auth_tokens::records::TokenPayload;
use auth_tokens::store::TokenStore;

fn payload(user_id: i32, data: &str) -> TokenPayload {
    TokenPayload { user_id, data: data.to_string() }
}

#[test]
fn get_returns_what_insert_stored() {
    let mut store = TokenStore::new();
    store.insert("k".to_string(), payload(5, "v"), 123).unwrap();
    let rec = store.get("k").unwrap();
    assert_eq!(rec.token, "k");
    assert_eq!(rec.payload.user_id, 5);
    assert_eq!(rec.payload.data, "v");
    assert_eq!(rec.modified_at, 123);
    assert!(store.get("other").is_none());
}

#[test]
fn cas_succeeds_only_on_expected_value() {
    let mut store = TokenStore::new();
    store.insert("k".to_string(), payload(1, "v"), 100).unwrap();

    // Wrong expectation: no change.
    assert!(store.compare_and_set_modified_at("k", 99, 200).is_none());
    assert_eq!(store.get("k").unwrap().modified_at, 100);

    // Right expectation: the swap lands and returns the updated record.
    let updated = store.compare_and_set_modified_at("k", 100, 200).unwrap();
    assert_eq!(updated.modified_at, 200);
    assert_eq!(updated.payload.data, "v");
    assert_eq!(store.get("k").unwrap().modified_at, 200);

    // The old expectation is now stale.
    assert!(store.compare_and_set_modified_at("k", 100, 300).is_none());
    assert_eq!(store.get("k").unwrap().modified_at, 200);
}

#[test]
fn cas_on_absent_record_fails() {
    let mut store = TokenStore::new();
    assert!(store.compare_and_set_modified_at("ghost", 0, 100).is_none());
}

#[test]
fn delete_reports_presence() {
    let mut store = TokenStore::new();
    store.insert("k".to_string(), payload(1, "v"), 1).unwrap();
    assert!(store.delete("k"));
    assert!(!store.delete("k"));
    assert!(store.get("k").is_none());
}

#[test]
fn delete_for_user_counts_and_selects() {
    let mut store = TokenStore::new();
    store.insert("a".to_string(), payload(1, "x"), 1).unwrap();
    store.insert("b".to_string(), payload(2, "y"), 2).unwrap();
    store.insert("c".to_string(), payload(1, "z"), 3).unwrap();
    assert_eq!(store.delete_for_user(1), 2);
    assert_eq!(store.len(), 1);
    assert!(store.get("b").is_some());
    assert_eq!(store.delete_for_user(3), 0);
}

#[test]
fn delete_older_than_is_strict() {
    let mut store = TokenStore::new();
    store.insert("old".to_string(), payload(1, "x"), 99).unwrap();
    store.insert("edge".to_string(), payload(1, "x"), 100).unwrap();
    store.insert("new".to_string(), payload(1, "x"), 101).unwrap();
    assert_eq!(store.delete_older_than(100), 1);
    assert!(store.get("old").is_none());
    assert!(store.get("edge").is_some());
    assert!(store.get("new").is_some());
}

#[test]
fn len_tracks_contents() {
    let mut store = TokenStore::new();
    assert_eq!(store.len(), 0);
    store.insert("a".to_string(), payload(1, "x"), 1).unwrap();
    store.insert("b".to_string(), payload(1, "x"), 2).unwrap();
    assert_eq!(store.len(), 2);
    store.delete("a");
    assert_eq!(store.len(), 1);
}
