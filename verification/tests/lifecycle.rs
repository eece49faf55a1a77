//! End-to-end scenarios over the token lifecycle: issuance, validation,
//! renewal, revocation and the sweep, all against the embedded store.

use auth_tokens::config::TokenConfig;
use auth_tokens::manager::TokenManager;
use auth_tokens::records::{StoreError, TokenError, TokenPayload};
use auth_tokens::store::TokenStore;

const SECRET: &str = "test_secret";

fn manager(ttl: i64, threshold: i64) -> TokenManager {
    TokenManager::new(TokenConfig { ttl_seconds: ttl, renew_threshold_seconds: threshold })
}

fn payload(user_id: i32, data: &str) -> TokenPayload {
    TokenPayload { user_id, data: data.to_string() }
}

#[test]
fn issue_then_validate_returns_payload_unrenewed() {
    let mut store = TokenStore::new();
    let mgr = manager(300, 30);
    let now = 1_000_000;
    let issued = mgr.issue_token(&mut store, SECRET, payload(42, "claims"), now).unwrap();
    assert_eq!(issued.expires_at, now + 300);

    let v = mgr.validate_token(&mut store, &issued.token, false, now).unwrap();
    assert_eq!(v.record.payload.user_id, 42);
    assert_eq!(v.record.payload.data, "claims");
    assert_eq!(v.record.token, issued.token);
    assert!(!v.renewed);
    assert_eq!(v.expires_at, now + 300);
}

#[test]
fn issued_token_is_64_hex_digits() {
    let mut store = TokenStore::new();
    let mgr = manager(300, 30);
    let issued = mgr.issue_token(&mut store, SECRET, payload(1, "x"), 5_000).unwrap();
    assert_eq!(issued.token.len(), 64);
    assert!(issued.token.chars().all(|c| c.is_ascii_hexdigit() && !c.is_ascii_uppercase()));
}

#[test]
fn expired_token_is_reported_and_deleted() {
    let mut store = TokenStore::new();
    let mgr = manager(300, 30);
    let now = 1_000_000;
    // A record backdated past the time-to-live, placed directly in the store.
    store.insert("stale".to_string(), payload(1, "old"), now - 301).unwrap();

    let err = mgr.validate_token(&mut store, "stale", false, now).unwrap_err();
    assert!(matches!(err, TokenError::Expired));
    assert!(store.get("stale").is_none());
}

#[test]
fn age_equal_to_ttl_is_still_valid() {
    let mut store = TokenStore::new();
    let mgr = manager(300, 30);
    let now = 1_000_000;
    store.insert("edge".to_string(), payload(1, "x"), now - 300).unwrap();
    let v = mgr.validate_token(&mut store, "edge", false, now).unwrap();
    assert_eq!(v.expires_at, now);
}

#[test]
fn age_one_past_ttl_expires() {
    let mut store = TokenStore::new();
    let mgr = manager(300, 30);
    let now = 1_000_000;
    store.insert("gone".to_string(), payload(1, "x"), now - 301).unwrap();
    let err = mgr.validate_token(&mut store, "gone", true, now).unwrap_err();
    assert!(matches!(err, TokenError::Expired));
}

#[test]
fn validate_unknown_token_is_not_found() {
    let mut store = TokenStore::new();
    let mgr = manager(300, 30);
    let err = mgr.validate_token(&mut store, "nobody", true, 1_000).unwrap_err();
    assert!(matches!(err, TokenError::NotFound));
}

#[test]
fn renewal_below_threshold_keeps_record() {
    let mut store = TokenStore::new();
    let mgr = manager(300, 30);
    let now = 1_000_000;
    store.insert("young".to_string(), payload(1, "x"), now - 29).unwrap();
    let v = mgr.validate_token(&mut store, "young", true, now).unwrap();
    assert!(!v.renewed);
    assert_eq!(v.expires_at, now - 29 + 300);
}

#[test]
fn renewal_at_threshold_moves_timestamp() {
    let mut store = TokenStore::new();
    let mgr = manager(300, 30);
    let now = 1_000_000;
    store.insert("due".to_string(), payload(1, "x"), now - 30).unwrap();
    let v = mgr.validate_token(&mut store, "due", true, now).unwrap();
    assert!(v.renewed);
    assert_eq!(v.record.modified_at, now);
    assert_eq!(v.expires_at, now + 300);
}

#[test]
fn renewal_not_requested_keeps_timestamp() {
    let mut store = TokenStore::new();
    let mgr = manager(300, 30);
    let now = 1_000_000;
    store.insert("idle".to_string(), payload(1, "x"), now - 200).unwrap();
    let v = mgr.validate_token(&mut store, "idle", false, now).unwrap();
    assert!(!v.renewed);
    assert_eq!(v.record.modified_at, now - 200);
}

#[test]
fn racing_renewals_renew_exactly_once() {
    let mut store = TokenStore::new();
    let mgr = manager(300, 30);
    let t0 = 1_000_000;
    store.insert("shared".to_string(), payload(1, "x"), t0).unwrap();

    // Two validators read the same record, then both attempt a renewal.
    let observed = store.get("shared").unwrap().modified_at;
    let (first, first_renewed) =
        mgr.attempt_renewal(&mut store, "shared", observed, t0 + 40).unwrap();
    let (second, second_renewed) =
        mgr.attempt_renewal(&mut store, "shared", observed, t0 + 41).unwrap();

    assert!(first_renewed);
    assert!(!second_renewed);
    assert_eq!(first.modified_at, t0 + 40);
    // The loser adopts the winner's record: no lost update, no lost record.
    assert_eq!(second.modified_at, t0 + 40);
    assert!(second.modified_at >= observed);
    assert_eq!(store.get("shared").unwrap().modified_at, t0 + 40);
}

#[test]
fn three_racing_renewals_renew_exactly_once() {
    let mut store = TokenStore::new();
    let mgr = manager(300, 30);
    let t0 = 1_000_000;
    store.insert("busy".to_string(), payload(1, "x"), t0).unwrap();

    // Three validators share one observation; their attempts land in order.
    let observed = store.get("busy").unwrap().modified_at;
    let (a, a_renewed) = mgr.attempt_renewal(&mut store, "busy", observed, t0 + 40).unwrap();
    let (b, b_renewed) = mgr.attempt_renewal(&mut store, "busy", observed, t0 + 41).unwrap();
    let (c, c_renewed) = mgr.attempt_renewal(&mut store, "busy", observed, t0 + 42).unwrap();

    assert!(a_renewed);
    assert!(!b_renewed);
    assert!(!c_renewed);
    // Everyone ends on the winner's timestamp; nobody loses the record.
    assert_eq!(a.modified_at, t0 + 40);
    assert_eq!(b.modified_at, t0 + 40);
    assert_eq!(c.modified_at, t0 + 40);
    assert_eq!(store.get("busy").unwrap().modified_at, t0 + 40);
}

#[test]
fn stale_renewal_on_expired_record_reports_expired() {
    let mut store = TokenStore::new();
    let mgr = manager(300, 30);
    let t0 = 1_000_000;
    store.insert("decayed".to_string(), payload(1, "x"), t0).unwrap();
    // The record ages past the time-to-live before the stale attempt lands.
    let err = mgr.attempt_renewal(&mut store, "decayed", t0 - 5, t0 + 301).unwrap_err();
    assert!(matches!(err, TokenError::Expired));
    assert!(store.get("decayed").is_none());
}

#[test]
fn revoke_then_validate_is_not_found() {
    let mut store = TokenStore::new();
    let mgr = manager(300, 30);
    let now = 1_000_000;
    let issued = mgr.issue_token(&mut store, SECRET, payload(9, "bye"), now).unwrap();

    assert!(mgr.delete_token(&mut store, &issued.token));
    let err = mgr.validate_token(&mut store, &issued.token, true, now).unwrap_err();
    assert!(matches!(err, TokenError::NotFound));
    // Revoking again finds nothing.
    assert!(!mgr.delete_token(&mut store, &issued.token));
}

#[test]
fn revoke_all_for_user_removes_theirs_and_no_others() {
    let mut store = TokenStore::new();
    let mgr = manager(300, 30);
    let now = 1_000_000;
    let a1 = mgr.issue_token(&mut store, SECRET, payload(7, "a1"), now).unwrap();
    let a2 = mgr.issue_token(&mut store, SECRET, payload(7, "a2"), now).unwrap();
    let b = mgr.issue_token(&mut store, SECRET, payload(8, "b"), now).unwrap();

    let removed = mgr.delete_tokens_for_user(&mut store, 7);
    assert_eq!(removed, 2);
    assert!(store.get(&a1.token).is_none());
    assert!(store.get(&a2.token).is_none());
    let v = mgr.validate_token(&mut store, &b.token, false, now).unwrap();
    assert_eq!(v.record.payload.user_id, 8);
    assert_eq!(store.len(), 1);
}

#[test]
fn full_lifecycle_scenario() {
    // Issue with a 300 s time-to-live and a 30 s renewal threshold, validate
    // at once, renew at age 290, then let the renewal itself age out.
    let mut store = TokenStore::new();
    let mgr = manager(300, 30);
    let issued_at = 2_000_000;
    let issued = mgr.issue_token(&mut store, SECRET, payload(3, "session"), issued_at).unwrap();
    assert_eq!(issued.expires_at, issued_at + 300);

    let v1 = mgr.validate_token(&mut store, &issued.token, true, issued_at).unwrap();
    assert!(!v1.renewed);
    assert_eq!(v1.expires_at, issued_at + 300);

    let v2 = mgr.validate_token(&mut store, &issued.token, true, issued_at + 290).unwrap();
    assert!(v2.renewed);
    assert_eq!(v2.expires_at, issued_at + 290 + 300);

    let err =
        mgr.validate_token(&mut store, &issued.token, true, issued_at + 290 + 301).unwrap_err();
    assert!(matches!(err, TokenError::Expired));
    assert!(store.get(&issued.token).is_none());
}

#[test]
fn sweep_reclaims_only_records_past_ttl() {
    let mut store = TokenStore::new();
    let mgr = manager(300, 30);
    let now = 3_000_000;
    let live = mgr.issue_token(&mut store, SECRET, payload(1, "live"), now).unwrap();
    let dead1 = mgr.issue_token(&mut store, SECRET, payload(2, "dead"), now).unwrap();
    let dead2 = mgr.issue_token(&mut store, SECRET, payload(3, "dead"), now).unwrap();

    // Backdate two records past the time-to-live, directly in the store.
    store.compare_and_set_modified_at(&dead1.token, now, now - 301).unwrap();
    store.compare_and_set_modified_at(&dead2.token, now, now - 400).unwrap();

    let removed = mgr.cleanup_expired(&mut store, now);
    assert_eq!(removed, 2);
    assert_eq!(store.len(), 1);
    assert!(store.get(&live.token).is_some());
    assert!(store.get(&dead1.token).is_none());
    assert!(store.get(&dead2.token).is_none());
}

#[test]
fn sweep_with_nonpositive_ttl_uses_one_second() {
    let mut store = TokenStore::new();
    let mgr = manager(0, 30);
    let now = 1_000_000;
    store.insert("a".to_string(), payload(1, "x"), now - 2).unwrap();
    store.insert("b".to_string(), payload(1, "x"), now).unwrap();
    // Cutoff is now - max(ttl, 1) = now - 1: only the two-second-old record goes.
    assert_eq!(mgr.cleanup_expired(&mut store, now), 1);
    assert!(store.get("a").is_none());
    assert!(store.get("b").is_some());
}

#[test]
fn issue_propagates_insert_conflict() {
    let mut store = TokenStore::new();
    // A conflicting insert at store level reports Conflict and changes nothing.
    store.insert("same".to_string(), payload(1, "x"), 100).unwrap();
    let err = store.insert("same".to_string(), payload(2, "y"), 200).unwrap_err();
    assert!(matches!(err, StoreError::Conflict));
    let rec = store.get("same").unwrap();
    assert_eq!(rec.payload.user_id, 1);
    assert_eq!(rec.modified_at, 100);
}

#[test]
fn error_taxonomy_is_distinguishable() {
    assert_ne!(TokenError::NotFound, TokenError::Expired);
    assert_ne!(TokenError::Expired, TokenError::Store(StoreError::Unavailable));
    assert_ne!(
        TokenError::Store(StoreError::Conflict),
        TokenError::Store(StoreError::Unavailable)
    );
}
