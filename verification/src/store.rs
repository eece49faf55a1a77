//! The embedded token store: durable-in-process key-value persistence for
//! token records, with the compare-and-swap primitive the whole lifecycle
//! relies on.
//!
//! The store holds its records in a vector with pairwise-distinct token
//! values; its mathematical state is the finite map from token value to
//! record content. External backends (a relational database, say) live
//! outside this crate and mirror these operations; the manager's decision
//! logic is shared with them through its own functions.

use vstd::prelude::*;

use crate::config::MAX_TIMESTAMP;
use crate::records::{StoreError, StoreModel, TokenData, TokenPayload, TokenRecord};

verus! {

/// No two records share a token value.
spec fn unique_tokens(s: Seq<TokenRecord>) -> bool {
    forall|i: int, j: int| 0 <= i < j < s.len() ==> (#[trigger] s[i].key()) != (#[trigger] s[j].key())
}

/// Every record's timestamp lies in `[0, MAX_TIMESTAMP]`.
spec fn stamps_bounded(s: Seq<TokenRecord>) -> bool {
    forall|i: int| 0 <= i < s.len() ==> 0 <= (#[trigger] s[i]).modified_at <= MAX_TIMESTAMP
}

/// The map a record sequence denotes: later records shadow earlier ones,
/// though under `unique_tokens` no shadowing ever happens.
spec fn model_of(s: Seq<TokenRecord>) -> StoreModel
    decreases s.len(),
{
    if s.len() == 0 {
        Map::empty()
    } else {
        model_of(s.drop_last()).insert(s.last().key(), s.last()@)
    }
}

/// A key is in the map exactly when some record carries it.
proof fn lemma_model_contains(s: Seq<TokenRecord>, k: Seq<char>)
    ensures
        model_of(s).contains_key(k) <==> exists|i: int| 0 <= i < s.len() && (#[trigger] s[i]).key() == k,
    decreases s.len(),
{
    if s.len() > 0 {
        lemma_model_contains(s.drop_last(), k);
        if s.last().key() == k {
            assert(s[s.len() - 1].key() == k);
        } else {
            if model_of(s).contains_key(k) {
                let i = choose|i: int| 0 <= i < s.drop_last().len() && (#[trigger] s.drop_last()[i]).key() == k;
                assert(s[i].key() == k);
            }
            if exists|i: int| 0 <= i < s.len() && (#[trigger] s[i]).key() == k {
                let i = choose|i: int| 0 <= i < s.len() && (#[trigger] s[i]).key() == k;
                assert(s.drop_last()[i].key() == k);
            }
        }
    }
}

/// Under uniqueness, the map agrees with each record.
proof fn lemma_model_index(s: Seq<TokenRecord>, i: int)
    requires
        unique_tokens(s),
        0 <= i < s.len(),
    ensures
        model_of(s).contains_key(s[i].key()),
        model_of(s)[s[i].key()] == s[i]@,
    decreases s.len(),
{
    if i == s.len() - 1 {
        assert(s.last() == s[i]);
    } else {
        assert(unique_tokens(s.drop_last())) by {
            assert(forall|a: int, b: int|
                0 <= a < b < s.drop_last().len() ==> (#[trigger] s.drop_last()[a].key())
                    != (#[trigger] s.drop_last()[b].key())) by {
                assert(forall|a: int|
                    0 <= a < s.drop_last().len() ==> (#[trigger] s.drop_last()[a]) == s[a]);
            }
        }
        lemma_model_index(s.drop_last(), i);
        assert(s.drop_last()[i] == s[i]);
        assert(s.last().key() != s[i].key());
    }
}

/// Under uniqueness, the map has exactly one entry per record.
proof fn lemma_model_len(s: Seq<TokenRecord>)
    requires
        unique_tokens(s),
    ensures
        model_of(s).dom().finite(),
        model_of(s).dom().len() == s.len(),
    decreases s.len(),
{
    if s.len() > 0 {
        assert(unique_tokens(s.drop_last())) by {
            assert(forall|a: int|
                0 <= a < s.drop_last().len() ==> (#[trigger] s.drop_last()[a]) == s[a]);
        }
        lemma_model_len(s.drop_last());
        lemma_model_contains(s.drop_last(), s.last().key());
        assert(!model_of(s.drop_last()).contains_key(s.last().key())) by {
            if exists|i: int|
                0 <= i < s.drop_last().len() && (#[trigger] s.drop_last()[i]).key() == s.last().key() {
                let i = choose|i: int|
                    0 <= i < s.drop_last().len() && (#[trigger] s.drop_last()[i]).key()
                        == s.last().key();
                assert(s[i].key() == s[s.len() - 1].key());
            }
        }
        assert(model_of(s).dom() =~= model_of(s.drop_last()).dom().insert(s.last().key()));
    }
}

/// Dropping the last record removes exactly its key from the map.
proof fn lemma_model_drop_last(s: Seq<TokenRecord>)
    requires
        s.len() > 0,
        unique_tokens(s),
    ensures
        unique_tokens(s.drop_last()),
        stamps_bounded(s) ==> stamps_bounded(s.drop_last()),
        model_of(s).contains_key(s.last().key()),
        model_of(s)[s.last().key()] == s.last()@,
        !model_of(s.drop_last()).contains_key(s.last().key()),
        forall|k: Seq<char>| #[trigger]
            model_of(s.drop_last()).contains_key(k) <==> model_of(s).contains_key(k) && k
                != s.last().key(),
        forall|k: Seq<char>| #[trigger]
            model_of(s.drop_last()).contains_key(k) ==> model_of(s.drop_last())[k] == model_of(
                s,
            )[k],
{
    assert(forall|a: int| 0 <= a < s.drop_last().len() ==> (#[trigger] s.drop_last()[a]) == s[a]);
    lemma_model_index(s, s.len() - 1);
    lemma_model_contains(s.drop_last(), s.last().key());
    if model_of(s.drop_last()).contains_key(s.last().key()) {
        let i = choose|i: int|
            0 <= i < s.drop_last().len() && (#[trigger] s.drop_last()[i]).key() == s.last().key();
        assert(s[i].key() == s[s.len() - 1].key());
    }
}

/// Pushing a record with a fresh key adds exactly its entry to the map.
proof fn lemma_model_push(s: Seq<TokenRecord>, r: TokenRecord)
    requires
        unique_tokens(s),
        !model_of(s).contains_key(r.key()),
    ensures
        unique_tokens(s.push(r)),
        stamps_bounded(s) && 0 <= r.modified_at <= MAX_TIMESTAMP ==> stamps_bounded(s.push(r)),
        model_of(s.push(r)) == model_of(s).insert(r.key(), r@),
        forall|k: Seq<char>| #[trigger]
            model_of(s.push(r)).contains_key(k) <==> model_of(s).contains_key(k) || k == r.key(),
        forall|k: Seq<char>| #[trigger]
            model_of(s.push(r)).contains_key(k) ==> model_of(s.push(r))[k] == (if k == r.key() {
                r@
            } else {
                model_of(s)[k]
            }),
{
    let s2 = s.push(r);
    assert(s2.drop_last() =~= s);
    assert(s2.last() == r);
    lemma_model_contains(s, r.key());
    assert(forall|a: int| 0 <= a < s.len() ==> (#[trigger] s2[a]) == s[a]);
    assert forall|a: int, b: int| 0 <= a < b < s2.len() implies (#[trigger] s2[a].key())
        != (#[trigger] s2[b].key()) by {
        if b == s2.len() - 1 {
            assert(s2[b] == r);
            if s2[a].key() == r.key() {
                assert(s[a].key() == r.key());
            }
        }
    }
}

/// The embedded token store.
pub struct TokenStore {
    records: Vec<TokenRecord>,
}

impl TokenStore {
    /// The store's mathematical state.
    pub closed spec fn model(&self) -> StoreModel {
        model_of(self.records@)
    }

    /// Well-formedness: distinct token values, bounded timestamps.
    pub closed spec fn inv(&self) -> bool {
        unique_tokens(self.records@) && stamps_bounded(self.records@)
    }

    /// The store's model is a finite map: counts over its domain are
    /// ordinary cardinalities.
    pub proof fn lemma_model_finite(&self)
        requires
            self.inv(),
        ensures
            self.model().dom().finite(),
    {
        lemma_model_len(self.records@);
    }

    /// An empty store.
    pub fn new() -> (r: TokenStore)
        ensures
            r.inv(),
            r.model() == StoreModel::empty(),
    {
        TokenStore { records: Vec::new() }
    }

    /// How many records the store holds.
    pub fn len(&self) -> (r: usize)
        requires
            self.inv(),
        ensures
            r == self.model().dom().len(),
    {
        proof {
            lemma_model_len(self.records@);
        }
        self.records.len()
    }

    /// Point query: the record stored under `token`, if any. No side effects.
    pub fn get(&self, token: &str) -> (r: Option<TokenRecord>)
        requires
            self.inv(),
        ensures
            match r {
                Some(rec) => {
                    &&& self.model().contains_key(token@)
                    &&& rec.key() == token@
                    &&& rec@ == self.model()[token@]
                    &&& 0 <= rec.modified_at <= MAX_TIMESTAMP
                },
                None => !self.model().contains_key(token@),
            },
    {
        let n = self.records.len();
        let token_owned = token.to_owned();
        let mut i: usize = 0;
        while i < n
            invariant
                self.inv(),
                n == self.records@.len(),
                0 <= i <= n,
                token_owned@ == token@,
                forall|j: int| 0 <= j < i ==> (#[trigger] self.records@[j]).key() != token@,
            decreases n - i,
        {
            if self.records[i].token == token_owned {
                proof {
                    lemma_model_index(self.records@, i as int);
                }
                return Some(self.records[i].clone());
            }
            i += 1;
        }
        proof {
            lemma_model_contains(self.records@, token@);
        }
        None
    }

    /// Inserts a fresh record. Fails with `Conflict`, changing nothing, when
    /// the token value is already present.
    pub fn insert(&mut self, token: String, payload: TokenPayload, modified_at: i64) -> (r: Result<
        (),
        StoreError,
    >)
        requires
            old(self).inv(),
            0 <= modified_at <= MAX_TIMESTAMP,
        ensures
            final(self).inv(),
            match r {
                Ok(()) => {
                    &&& !old(self).model().contains_key(token@)
                    &&& final(self).model() == old(self).model().insert(
                        token@,
                        payload.data_model(modified_at as int),
                    )
                },
                Err(e) => {
                    &&& e == StoreError::Conflict
                    &&& old(self).model().contains_key(token@)
                    &&& final(self).model() == old(self).model()
                },
            },
    {
        let n = self.records.len();
        let mut i: usize = 0;
        while i < n
            invariant
                self.inv(),
                n == self.records@.len(),
                0 <= i <= n,
                forall|j: int| 0 <= j < i ==> (#[trigger] self.records@[j]).key() != token@,
            decreases n - i,
        {
            if self.records[i].token == token {
                proof {
                    lemma_model_index(self.records@, i as int);
                }
                return Err(StoreError::Conflict);
            }
            i += 1;
        }
        proof {
            lemma_model_contains(self.records@, token@);
        }
        let ghost s0 = self.records@;
        let rec = TokenRecord { token, payload, modified_at };
        self.records.push(rec);
        proof {
            assert(self.records@.drop_last() =~= s0);
            assert(forall|j: int| 0 <= j < s0.len() ==> (#[trigger] self.records@[j]) == s0[j]);
        }
        Ok(())
    }

    /// The single concurrency primitive: atomically moves `modified_at` from
    /// `expected` to `new_value`, but only if the stored value still equals
    /// `expected`; returns the updated record on success and `None` when the
    /// record is absent or was changed concurrently. Nothing else is ever
    /// updated in place.
    pub fn compare_and_set_modified_at(
        &mut self,
        token: &str,
        expected: i64,
        new_value: i64,
    ) -> (r: Option<TokenRecord>)
        requires
            old(self).inv(),
            0 <= new_value <= MAX_TIMESTAMP,
        ensures
            final(self).inv(),
            match r {
                Some(rec) => {
                    &&& old(self).model().contains_key(token@)
                    &&& old(self).model()[token@].modified_at == expected
                    &&& rec.key() == token@
                    &&& rec.modified_at == new_value
                    &&& rec@ == spec_touch(old(self).model()[token@], new_value as int)
                    &&& final(self).model() == old(self).model().insert(token@, rec@)
                },
                None => {
                    &&& final(self).model() == old(self).model()
                    &&& !(old(self).model().contains_key(token@) && old(self).model()[token@].modified_at
                        == expected)
                },
            },
    {
        let n = self.records.len();
        let token_owned = token.to_owned();
        let mut i: usize = 0;
        while i < n
            invariant
                self.inv(),
                *self == *old(self),
                n == self.records@.len(),
                0 <= i <= n,
                0 <= new_value <= MAX_TIMESTAMP,
                token_owned@ == token@,
                forall|j: int| 0 <= j < i ==> (#[trigger] self.records@[j]).key() != token@,
            decreases n - i,
        {
            if self.records[i].token == token_owned {
                proof {
                    lemma_model_index(self.records@, i as int);
                }
                if self.records[i].modified_at == expected {
                    let ghost s0 = self.records@;
                    let updated = TokenRecord {
                        token: self.records[i].token.clone(),
                        payload: self.records[i].payload.clone(),
                        modified_at: new_value,
                    };
                    let result = updated.clone();
                    proof {
                        lemma_model_set(s0, i as int, updated);
                    }
                    self.records.set(i, updated);
                    return Some(result);
                } else {
                    return None;
                }
            }
            i += 1;
        }
        proof {
            lemma_model_contains(self.records@, token@);
        }
        None
    }

    /// Removes the record stored under `token`; tells whether one was there.
    pub fn delete(&mut self, token: &str) -> (r: bool)
        requires
            old(self).inv(),
        ensures
            final(self).inv(),
            r == old(self).model().contains_key(token@),
            final(self).model() == old(self).model().remove(token@),
    {
        let ghost m0 = self.model();
        let token_owned = token.to_owned();
        let mut kept: Vec<TokenRecord> = Vec::new();
        let mut removed = false;
        proof {
            lemma_model_contains(self.records@, token@);
        }
        while self.records.len() > 0
            invariant
                unique_tokens(self.records@),
                stamps_bounded(self.records@),
                unique_tokens(kept@),
                stamps_bounded(kept@),
                token_owned@ == token@,
                forall|k: Seq<char>| #[trigger]
                    model_of(self.records@).contains_key(k) ==> m0.contains_key(k) && model_of(
                        self.records@,
                    )[k] == m0[k],
                forall|k: Seq<char>| #[trigger]
                    model_of(kept@).contains_key(k) ==> m0.contains_key(k) && model_of(kept@)[k]
                        == m0[k] && k != token@,
                forall|k: Seq<char>| #[trigger]
                    m0.contains_key(k) ==> model_of(self.records@).contains_key(k) || model_of(
                        kept@,
                    ).contains_key(k) || k == token@,
                forall|k: Seq<char>|
                    !(model_of(self.records@).contains_key(k) && #[trigger] model_of(
                        kept@,
                    ).contains_key(k)),
                removed ==> m0.contains_key(token@),
                m0.contains_key(token@) && !model_of(self.records@).contains_key(token@)
                    ==> removed,
            decreases self.records.len(),
        {
            let ghost s = self.records@;
            proof {
                lemma_model_drop_last(s);
            }
            let rec = match self.records.pop() {
                Some(rec) => rec,
                None => {
                    return false;  // unreachable: the loop condition holds
                },
            };
            if rec.token == token_owned {
                removed = true;
            } else {
                proof {
                    lemma_model_push(kept@, rec);
                }
                kept.push(rec);
            }
        }
        self.records = kept;
        proof {
            assert(self.model() =~= m0.remove(token@));
        }
        removed
    }

    /// Bulk revocation: removes every record whose payload carries `user_id`
    /// and no other; returns how many were removed.
    pub fn delete_for_user(&mut self, user_id: i32) -> (r: u64)
        requires
            old(self).inv(),
        ensures
            final(self).inv(),
            final(self).model() == spec_revoke_all(old(self).model(), user_id as int),
            old(self).model().dom().finite(),
            final(self).model().dom().finite(),
            r == old(self).model().dom().len() - final(self).model().dom().len(),
    {
        let ghost m0 = self.model();
        let n0 = self.records.len();
        let mut kept: Vec<TokenRecord> = Vec::new();
        let mut removed: usize = 0;
        proof {
            lemma_model_len(self.records@);
        }
        while self.records.len() > 0
            invariant
                unique_tokens(self.records@),
                stamps_bounded(self.records@),
                unique_tokens(kept@),
                stamps_bounded(kept@),
                kept@.len() + removed + self.records@.len() == n0,
                forall|k: Seq<char>| #[trigger]
                    model_of(self.records@).contains_key(k) ==> m0.contains_key(k) && model_of(
                        self.records@,
                    )[k] == m0[k],
                forall|k: Seq<char>| #[trigger]
                    model_of(kept@).contains_key(k) ==> m0.contains_key(k) && model_of(kept@)[k]
                        == m0[k] && m0[k].user_id != user_id as int,
                forall|k: Seq<char>| #[trigger]
                    m0.contains_key(k) ==> model_of(self.records@).contains_key(k) || model_of(
                        kept@,
                    ).contains_key(k) || m0[k].user_id == user_id as int,
                forall|k: Seq<char>|
                    !(model_of(self.records@).contains_key(k) && #[trigger] model_of(
                        kept@,
                    ).contains_key(k)),
            decreases self.records.len(),
        {
            let ghost s = self.records@;
            proof {
                lemma_model_drop_last(s);
            }
            let rec = match self.records.pop() {
                Some(rec) => rec,
                None => {
                    return 0;  // unreachable: the loop condition holds
                },
            };
            if rec.payload.user_id == user_id {
                removed = removed + 1;
            } else {
                proof {
                    lemma_model_push(kept@, rec);
                }
                kept.push(rec);
            }
        }
        self.records = kept;
        proof {
            assert(self.model() =~= spec_revoke_all(m0, user_id as int));
            lemma_model_len(self.records@);
        }
        removed as u64
    }

    /// Bulk sweep: removes every record whose timestamp is older than
    /// `cutoff` and no other; returns how many were removed.
    pub fn delete_older_than(&mut self, cutoff: i64) -> (r: u64)
        requires
            old(self).inv(),
        ensures
            final(self).inv(),
            final(self).model() == spec_sweep(old(self).model(), cutoff as int),
            old(self).model().dom().finite(),
            final(self).model().dom().finite(),
            r == old(self).model().dom().len() - final(self).model().dom().len(),
    {
        let ghost m0 = self.model();
        let n0 = self.records.len();
        let mut kept: Vec<TokenRecord> = Vec::new();
        let mut removed: usize = 0;
        proof {
            lemma_model_len(self.records@);
        }
        while self.records.len() > 0
            invariant
                unique_tokens(self.records@),
                stamps_bounded(self.records@),
                unique_tokens(kept@),
                stamps_bounded(kept@),
                kept@.len() + removed + self.records@.len() == n0,
                forall|k: Seq<char>| #[trigger]
                    model_of(self.records@).contains_key(k) ==> m0.contains_key(k) && model_of(
                        self.records@,
                    )[k] == m0[k],
                forall|k: Seq<char>| #[trigger]
                    model_of(kept@).contains_key(k) ==> m0.contains_key(k) && model_of(kept@)[k]
                        == m0[k] && m0[k].modified_at >= cutoff as int,
                forall|k: Seq<char>| #[trigger]
                    m0.contains_key(k) ==> model_of(self.records@).contains_key(k) || model_of(
                        kept@,
                    ).contains_key(k) || m0[k].modified_at < cutoff as int,
                forall|k: Seq<char>|
                    !(model_of(self.records@).contains_key(k) && #[trigger] model_of(
                        kept@,
                    ).contains_key(k)),
            decreases self.records.len(),
        {
            let ghost s = self.records@;
            proof {
                lemma_model_drop_last(s);
            }
            let rec = match self.records.pop() {
                Some(rec) => rec,
                None => {
                    return 0;  // unreachable: the loop condition holds
                },
            };
            if rec.modified_at < cutoff {
                removed = removed + 1;
            } else {
                proof {
                    lemma_model_push(kept@, rec);
                }
                kept.push(rec);
            }
        }
        self.records = kept;
        proof {
            assert(self.model() =~= spec_sweep(m0, cutoff as int));
            lemma_model_len(self.records@);
        }
        removed as u64
    }
}

/// The store after bulk revocation: every record whose payload carries
/// `user_id` is gone, every other record is untouched.
pub open spec fn spec_revoke_all(m: StoreModel, user_id: int) -> StoreModel {
    Map::new(|k: Seq<char>| m.contains_key(k) && m[k].user_id != user_id, |k: Seq<char>| m[k])
}

/// The store after a sweep with the given cutoff: every record whose
/// timestamp is older than `cutoff` is gone, every other record is untouched.
pub open spec fn spec_sweep(m: StoreModel, cutoff: int) -> StoreModel {
    Map::new(|k: Seq<char>| m.contains_key(k) && m[k].modified_at >= cutoff, |k: Seq<char>| m[k])
}

/// A record content with its timestamp moved, everything else unchanged.
pub open spec fn spec_touch(d: TokenData, new_modified_at: int) -> TokenData {
    TokenData { user_id: d.user_id, data: d.data, modified_at: new_modified_at }
}

/// Setting one index to a record with the same key updates the map at that
/// key alone.
proof fn lemma_model_set(s: Seq<TokenRecord>, i: int, r2: TokenRecord)
    requires
        unique_tokens(s),
        0 <= i < s.len(),
        r2.key() == s[i].key(),
    ensures
        unique_tokens(s.update(i, r2)),
        stamps_bounded(s) && 0 <= r2.modified_at <= MAX_TIMESTAMP ==> stamps_bounded(
            s.update(i, r2),
        ),
        model_of(s.update(i, r2)) == model_of(s).insert(r2.key(), r2@),
    decreases s.len(),
{
    let s2 = s.update(i, r2);
    assert(forall|j: int| 0 <= j < s.len() && j != i ==> (#[trigger] s2[j]) == s[j]);
    if i == s.len() - 1 {
        assert(s2.drop_last() =~= s.drop_last());
        assert(s2.last() == r2);
    } else {
        assert(unique_tokens(s.drop_last())) by {
            assert(forall|a: int|
                0 <= a < s.drop_last().len() ==> (#[trigger] s.drop_last()[a]) == s[a]);
        }
        lemma_model_set(s.drop_last(), i, r2);
        assert(s2.drop_last() =~= s.drop_last().update(i, r2));
        assert(s2.last() == s.last());
        assert(s.last().key() != r2.key());
        assert(model_of(s2) =~= model_of(s).insert(r2.key(), r2@));
    }
}

} // verus!
