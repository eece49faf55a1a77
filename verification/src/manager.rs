//! The token lifecycle manager: issuance, validation with optimistic
//! renewal, revocation, and the expiry sweep.
//!
//! The manager holds no mutable state of its own; every operation is a point
//! query or point mutation against the store, and the only coordination
//! primitive is the store's compare-and-swap. Time enters as an explicit
//! `now` argument (see [`crate::clock::current_epoch`]), so every decision
//! the manager takes is a function of its arguments.

use vstd::prelude::*;

use crate::config::{config_wf, TokenConfig, MAX_TIMESTAMP};
use crate::digest::{generate_token_value, spec_token_value};
use crate::records::{StoreError, StoreModel, TokenData, TokenError, TokenIssue, TokenPayload,
    TokenRecord, TokenValidation};
use crate::store::{spec_revoke_all, spec_sweep, spec_touch, TokenStore};

verus! {

/// A token with this timestamp is expired at `now`: its age exceeds the
/// time-to-live strictly.
pub open spec fn spec_has_expired(c: TokenConfig, modified_at: int, now: int) -> bool {
    now - modified_at > c.ttl_seconds
}

/// A validation at `now` should renew a token with this timestamp: its age
/// has reached the renewal threshold.
pub open spec fn spec_should_renew(c: TokenConfig, modified_at: int, now: int) -> bool {
    now - modified_at >= c.renew_threshold_seconds
}

/// When a record with this timestamp expires.
pub open spec fn spec_expires_at(c: TokenConfig, modified_at: int) -> int {
    modified_at + c.ttl_seconds
}

/// The time-to-live as the sweep uses it, clamped to at least one second.
pub open spec fn spec_clamped_ttl(c: TokenConfig) -> int {
    if c.ttl_seconds > 1 {
        c.ttl_seconds as int
    } else {
        1
    }
}

/// The sweep cutoff at `now`: records older than this are reclaimed.
pub open spec fn spec_sweep_cutoff(c: TokenConfig, now: int) -> int {
    now - spec_clamped_ttl(c)
}

/// What one renewal attempt does to the store and returns, given the
/// `observed` timestamp the attempting validator last read. The observation
/// may be stale: another validator may have renewed (or a sweep removed) the
/// record after it was read. Exactly one of any set of attempts sharing an
/// observation can take the first branch; the others fall through to the
/// re-read branches.
pub open spec fn spec_attempt_renewal(
    c: TokenConfig,
    m: StoreModel,
    token: Seq<char>,
    observed: int,
    now: int,
) -> (StoreModel, Result<(TokenData, bool), TokenError>) {
    if m.contains_key(token) && m[token].modified_at == observed {
        let touched = spec_touch(m[token], now);
        (m.insert(token, touched), Ok((touched, true)))
    } else if !m.contains_key(token) {
        (m, Err(TokenError::NotFound))
    } else if spec_has_expired(c, m[token].modified_at, now) {
        (m.remove(token), Err(TokenError::Expired))
    } else {
        (m, Ok((m[token], false)))
    }
}

/// What a validation at `now` does to the store and returns.
pub open spec fn spec_validate(
    c: TokenConfig,
    m: StoreModel,
    token: Seq<char>,
    renew_if_needed: bool,
    now: int,
) -> (StoreModel, Result<(TokenData, bool), TokenError>) {
    if !m.contains_key(token) {
        (m, Err(TokenError::NotFound))
    } else if spec_has_expired(c, m[token].modified_at, now) {
        (m.remove(token), Err(TokenError::Expired))
    } else if renew_if_needed && spec_should_renew(c, m[token].modified_at, now) {
        let touched = spec_touch(m[token], now);
        (m.insert(token, touched), Ok((touched, true)))
    } else {
        (m, Ok((m[token], false)))
    }
}

/// The lifecycle manager: policy around a token store.
#[derive(Clone, Copy, Debug, PartialEq, Eq, Structural)]
pub struct TokenManager {
    /// The policy knobs captured at construction.
    pub config: TokenConfig,
}

impl TokenManager {
    /// The configuration is arithmetic-safe.
    pub open spec fn wf(&self) -> bool {
        config_wf(self.config)
    }

    /// Binds a manager to a configuration.
    pub fn new(config: TokenConfig) -> (r: TokenManager)
        requires
            config_wf(config),
        ensures
            r.config == config,
            r.wf(),
    {
        TokenManager { config }
    }

    /// The configured time-to-live in seconds.
    pub fn ttl(&self) -> (r: i64)
        ensures
            r == self.config.ttl_seconds,
    {
        self.config.ttl_seconds
    }

    /// When a record with the given timestamp expires.
    pub fn compute_expires_at(&self, modified_at: i64) -> (r: i64)
        requires
            self.wf(),
            0 <= modified_at <= MAX_TIMESTAMP,
        ensures
            r == spec_expires_at(self.config, modified_at as int),
    {
        modified_at + self.config.ttl_seconds
    }

    /// Whether a record with the given timestamp is expired at `now`.
    pub fn has_expired(&self, modified_at: i64, now: i64) -> (r: bool)
        requires
            self.wf(),
            0 <= modified_at <= MAX_TIMESTAMP,
            0 <= now <= MAX_TIMESTAMP,
        ensures
            r == spec_has_expired(self.config, modified_at as int, now as int),
    {
        now - modified_at > self.config.ttl_seconds
    }

    /// Whether a validation at `now` should renew a record with the given
    /// timestamp.
    pub fn should_renew(&self, modified_at: i64, now: i64) -> (r: bool)
        requires
            self.wf(),
            0 <= modified_at <= MAX_TIMESTAMP,
            0 <= now <= MAX_TIMESTAMP,
        ensures
            r == spec_should_renew(self.config, modified_at as int, now as int),
    {
        now - modified_at >= self.config.renew_threshold_seconds
    }

    /// Issues a token for `payload` at time `now`: generates an unguessable
    /// token value, persists the record, and reports when it will expire.
    /// The store is the source of truth for the token; the digest is only an
    /// unguessable identifier. The one way to fail is a collision of the
    /// drawn token value with a live key — negligible, but handled, not
    /// assumed away — which surfaces as `Conflict` and changes nothing; on a
    /// store holding no such value (an empty one, say) success is certain.
    pub fn issue_token(
        &self,
        store: &mut TokenStore,
        secret: &str,
        payload: TokenPayload,
        now: i64,
    ) -> (r: Result<TokenIssue, StoreError>)
        requires
            old(store).inv(),
            self.wf(),
            0 <= now <= MAX_TIMESTAMP,
        ensures
            final(store).inv(),
            match r {
                Ok(iss) => {
                    &&& !old(store).model().contains_key(iss.token@)
                    &&& iss.token@.len() == 64
                    &&& (exists|random: Seq<u8>|
                        random.len() == 32 && iss.token@ == #[trigger] spec_token_value(
                            secret@,
                            random,
                            now,
                        ))
                    &&& final(store).model() == old(store).model().insert(
                        iss.token@,
                        payload.data_model(now as int),
                    )
                    &&& iss.expires_at == spec_expires_at(self.config, now as int)
                },
                Err(e) => {
                    &&& e == StoreError::Conflict
                    &&& final(store).model() == old(store).model()
                    &&& (exists|random: Seq<u8>|
                        random.len() == 32 && old(store).model().contains_key(
                            #[trigger] spec_token_value(secret@, random, now),
                        ))
                },
            },
    {
        let token = generate_token_value(secret, now);
        let token_value = token.clone();
        match store.insert(token, payload, now) {
            Ok(()) => Ok(
                TokenIssue { token: token_value, expires_at: self.compute_expires_at(now) },
            ),
            Err(e) => Err(e),
        }
    }

    /// One renewal attempt through the store's compare-and-swap, starting
    /// from the timestamp this validator last `observed`. If the swap fails —
    /// the record is gone, or another validator moved it first — the record
    /// is re-read: gone means `NotFound`; expired by now means the record is
    /// deleted and `Expired` reported; otherwise the concurrent renewal is
    /// adopted as is, with `renewed = false`, since this caller's job is
    /// done.
    pub fn attempt_renewal(
        &self,
        store: &mut TokenStore,
        token: &str,
        observed_modified_at: i64,
        now: i64,
    ) -> (r: Result<(TokenRecord, bool), TokenError>)
        requires
            old(store).inv(),
            self.wf(),
            0 <= now <= MAX_TIMESTAMP,
        ensures
            final(store).inv(),
            ({
                let outcome = spec_attempt_renewal(
                    self.config,
                    old(store).model(),
                    token@,
                    observed_modified_at as int,
                    now as int,
                );
                &&& final(store).model() == outcome.0
                &&& match (r, outcome.1) {
                    (Ok(p), Ok(q)) => {
                        &&& p.0.key() == token@
                        &&& p.0@ == q.0
                        &&& p.1 == q.1
                        &&& 0 <= p.0.modified_at <= MAX_TIMESTAMP
                    },
                    (Err(e1), Err(e2)) => e1 == e2,
                    _ => false,
                }
            }),
    {
        match store.compare_and_set_modified_at(token, observed_modified_at, now) {
            Some(updated) => Ok((updated, true)),
            None => {
                match store.get(token) {
                    None => Err(TokenError::NotFound),
                    Some(current) => {
                        if self.has_expired(current.modified_at, now) {
                            store.delete(token);
                            Err(TokenError::Expired)
                        } else {
                            Ok((current, false))
                        }
                    },
                }
            },
        }
    }

    /// Validates a token at time `now`, renewing it when asked to and due.
    /// `NotFound` when the record is absent; `Expired` — after a best-effort
    /// delete of the dead record — when its age exceeds the time-to-live;
    /// otherwise the record, whether this call renewed it, and when the
    /// adopted record expires.
    pub fn validate_token(
        &self,
        store: &mut TokenStore,
        token: &str,
        renew_if_needed: bool,
        now: i64,
    ) -> (r: Result<TokenValidation, TokenError>)
        requires
            old(store).inv(),
            self.wf(),
            0 <= now <= MAX_TIMESTAMP,
        ensures
            final(store).inv(),
            ({
                let outcome = spec_validate(
                    self.config,
                    old(store).model(),
                    token@,
                    renew_if_needed,
                    now as int,
                );
                &&& final(store).model() == outcome.0
                &&& match (r, outcome.1) {
                    (Ok(v), Ok(q)) => {
                        &&& v.record.key() == token@
                        &&& v.record@ == q.0
                        &&& v.renewed == q.1
                        &&& v.expires_at == spec_expires_at(self.config, q.0.modified_at)
                    },
                    (Err(e1), Err(e2)) => e1 == e2,
                    _ => false,
                }
            }),
    {
        let record = match store.get(token) {
            Some(record) => record,
            None => {
                return Err(TokenError::NotFound);
            },
        };
        if self.has_expired(record.modified_at, now) {
            store.delete(token);
            return Err(TokenError::Expired);
        }
        let mut adopted = record;
        let mut renewed = false;
        if renew_if_needed && self.should_renew(adopted.modified_at, now) {
            match self.attempt_renewal(store, token, adopted.modified_at, now) {
                Ok(outcome) => {
                    adopted = outcome.0;
                    renewed = outcome.1;
                },
                Err(e) => {
                    return Err(e);
                },
            }
        }
        let expires_at = self.compute_expires_at(adopted.modified_at);
        Ok(TokenValidation { record: adopted, renewed, expires_at })
    }

    /// Revokes one token (logout): removes its record, and tells whether one
    /// was there.
    pub fn delete_token(&self, store: &mut TokenStore, token: &str) -> (r: bool)
        requires
            old(store).inv(),
        ensures
            final(store).inv(),
            r == old(store).model().contains_key(token@),
            final(store).model() == old(store).model().remove(token@),
    {
        store.delete(token)
    }

    /// Revokes every token whose payload carries `user_id` (account
    /// deletion) and no other; returns how many were removed.
    pub fn delete_tokens_for_user(&self, store: &mut TokenStore, user_id: i32) -> (r: u64)
        requires
            old(store).inv(),
        ensures
            final(store).inv(),
            final(store).model() == spec_revoke_all(old(store).model(), user_id as int),
            old(store).model().dom().finite(),
            final(store).model().dom().finite(),
            r == old(store).model().dom().len() - final(store).model().dom().len(),
    {
        store.delete_for_user(user_id)
    }

    /// The background sweep: reclaims every record whose age exceeds the
    /// time-to-live (clamped to at least one second) at time `now`; returns
    /// how many were reclaimed. Redundant with per-request expiry detection;
    /// it exists for tokens nobody re-validates.
    pub fn cleanup_expired(&self, store: &mut TokenStore, now: i64) -> (r: u64)
        requires
            old(store).inv(),
            self.wf(),
            0 <= now <= MAX_TIMESTAMP,
        ensures
            final(store).inv(),
            final(store).model() == spec_sweep(
                old(store).model(),
                spec_sweep_cutoff(self.config, now as int),
            ),
            old(store).model().dom().finite(),
            final(store).model().dom().finite(),
            r == old(store).model().dom().len() - final(store).model().dom().len(),
    {
        let ttl = if self.config.ttl_seconds > 1 {
            self.config.ttl_seconds
        } else {
            1
        };
        let cutoff = now - ttl;
        store.delete_older_than(cutoff)
    }
}

} // verus!
