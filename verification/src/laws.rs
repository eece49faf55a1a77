//! Laws of the token lifecycle, stated over the same spec-level transitions
//! the executable operations are proved against. Each proof function here is
//! part of what the library asserts about itself.

use vstd::prelude::*;

use crate::config::TokenConfig;
use crate::manager::{spec_attempt_renewal, spec_validate};
use crate::records::{StoreModel, TokenData, TokenError};
use crate::store::{spec_revoke_all, spec_sweep, spec_touch};

verus! {

/// Law: a token just issued into a store it was absent from validates,
/// without renewal and at the time of issuance, to its own record — payload
/// verbatim, `renewed` false — and leaves the store as issuance left it.
/// Stated over the transitions `TokenManager::issue_token` and
/// `TokenManager::validate_token` are proved against. (A negative
/// time-to-live expires everything at once, so it is excluded.)
pub proof fn lemma_issue_then_validate(
    c: TokenConfig,
    m: StoreModel,
    token: Seq<char>,
    d: TokenData,
    now: int,
)
    requires
        c.ttl_seconds >= 0,
        !m.contains_key(token),
        d.modified_at == now,
    ensures
        ({
            let issued = m.insert(token, d);
            let outcome = spec_validate(c, issued, token, false, now);
            outcome.0 == issued && outcome.1 == Ok::<(TokenData, bool), TokenError>((d, false))
        }),
{
}

/// Law: a validation that finds the record's age strictly past the
/// time-to-live reports `Expired` and removes the record, so a subsequent
/// lookup finds nothing. (At age exactly the time-to-live the token is still
/// valid: expiry is strict.)
pub proof fn lemma_expired_validate_removes(
    c: TokenConfig,
    m: StoreModel,
    token: Seq<char>,
    renew_if_needed: bool,
    now: int,
)
    requires
        m.contains_key(token),
        now - m[token].modified_at > c.ttl_seconds,
    ensures
        ({
            let outcome = spec_validate(c, m, token, renew_if_needed, now);
            &&& outcome.1 == Err::<(TokenData, bool), TokenError>(TokenError::Expired)
            &&& outcome.0 == m.remove(token)
            &&& !outcome.0.contains_key(token)
        }),
{
}

/// Law: renewal is at most once per observation. Of two renewal attempts
/// that both observed the same stored timestamp, the one applied first takes
/// the compare-and-swap (provided its clock moved past the observation, so
/// the swap is no no-op); the second attempt's swap fails its precondition,
/// renews nothing and changes nothing, and — arriving before the winner's
/// renewal itself expires — adopts the winner's record: a timestamp at least
/// its own observation, not a lost record, not `NotFound`.
pub proof fn lemma_renewal_race(
    c: TokenConfig,
    m: StoreModel,
    token: Seq<char>,
    observed: int,
    now_first: int,
    now_second: int,
)
    requires
        m.contains_key(token),
        m[token].modified_at == observed,
        observed < now_first,
        now_second - now_first <= c.ttl_seconds,
    ensures
        ({
            let first = spec_attempt_renewal(c, m, token, observed, now_first);
            let second = spec_attempt_renewal(c, first.0, token, observed, now_second);
            let winner = spec_touch(m[token], now_first);
            &&& first.1 == Ok::<(TokenData, bool), TokenError>((winner, true))
            &&& first.0 == m.insert(token, winner)
            &&& second.0 == first.0
            &&& second.1 == Ok::<(TokenData, bool), TokenError>((winner, false))
            &&& winner.modified_at >= observed
        }),
{
}

/// A sequence of renewal attempts sharing one observation, applied one
/// after the other: the store each attempt sees is the store the previous
/// attempt left. Since every store operation is atomic, the interleaving of
/// any number of racing validators that all read the same timestamp is such
/// a sequence, ordered by whose swap reached the store first.
pub open spec fn spec_attempt_series(
    c: TokenConfig,
    m: StoreModel,
    token: Seq<char>,
    observed: int,
    nows: Seq<int>,
) -> (StoreModel, Seq<Result<(TokenData, bool), TokenError>>)
    decreases nows.len(),
{
    if nows.len() == 0 {
        (m, Seq::<Result<(TokenData, bool), TokenError>>::empty())
    } else {
        let step = spec_attempt_renewal(c, m, token, observed, nows.first());
        let rest = spec_attempt_series(c, step.0, token, observed, nows.drop_first());
        (rest.0, seq![step.1] + rest.1)
    }
}

/// Attempts whose observation is already stale all adopt the stored record
/// unchanged, provided it stays unexpired for each of them.
proof fn lemma_attempt_series_stale(
    c: TokenConfig,
    m: StoreModel,
    token: Seq<char>,
    observed: int,
    nows: Seq<int>,
)
    requires
        m.contains_key(token),
        m[token].modified_at != observed,
        forall|i: int|
            0 <= i < nows.len() ==> (#[trigger] nows[i]) - m[token].modified_at <= c.ttl_seconds,
    ensures
        ({
            let series = spec_attempt_series(c, m, token, observed, nows);
            &&& series.0 == m
            &&& series.1.len() == nows.len()
            &&& forall|i: int|
                0 <= i < nows.len() ==> series.1[i] == Ok::<(TokenData, bool), TokenError>(
                    (m[token], false),
                )
        }),
    decreases nows.len(),
{
    if nows.len() > 0 {
        assert(forall|i: int|
            0 <= i < nows.drop_first().len() ==> (#[trigger] nows.drop_first()[i]) == nows[i + 1]);
        lemma_attempt_series_stale(c, m, token, observed, nows.drop_first());
        let series = spec_attempt_series(c, m, token, observed, nows);
        let rest = spec_attempt_series(c, m, token, observed, nows.drop_first());
        assert forall|i: int| 0 <= i < nows.len() implies series.1[i] == Ok::<
            (TokenData, bool),
            TokenError,
        >((m[token], false)) by {
            if i > 0 {
                assert(series.1[i] == rest.1[i - 1]);
            }
        }
    }
}

/// Law: of any number of renewal attempts that all observed the same stored
/// timestamp — the sequential interleaving of N racing `validate` calls —
/// exactly the first to reach the store renews: its swap lands, moving the
/// timestamp to its own clock reading, and every later attempt's swap fails
/// its precondition, renews nothing, changes nothing, and adopts the
/// winner's record, timestamp newer than the shared observation; none sees
/// `NotFound`, provided each arrives before the winner's renewal itself
/// expires. (A winner whose clock still equals the observation is excluded:
/// its swap would be a no-op, leaving the observation fresh.)
pub proof fn lemma_renewal_race_series(
    c: TokenConfig,
    m: StoreModel,
    token: Seq<char>,
    observed: int,
    nows: Seq<int>,
)
    requires
        m.contains_key(token),
        m[token].modified_at == observed,
        nows.len() > 0,
        forall|i: int| 0 <= i < nows.len() ==> observed < (#[trigger] nows[i]),
        forall|i: int| 1 <= i < nows.len() ==> (#[trigger] nows[i]) - nows[0] <= c.ttl_seconds,
    ensures
        ({
            let winner = spec_touch(m[token], nows[0]);
            let series = spec_attempt_series(c, m, token, observed, nows);
            &&& series.0 == m.insert(token, winner)
            &&& series.1.len() == nows.len()
            &&& series.1[0] == Ok::<(TokenData, bool), TokenError>((winner, true))
            &&& forall|i: int|
                1 <= i < nows.len() ==> series.1[i] == Ok::<(TokenData, bool), TokenError>(
                    (winner, false),
                )
            &&& winner.modified_at > observed
        }),
{
    let winner = spec_touch(m[token], nows[0]);
    let m1 = m.insert(token, winner);
    assert(forall|i: int|
        0 <= i < nows.drop_first().len() ==> (#[trigger] nows.drop_first()[i]) == nows[i + 1]);
    lemma_attempt_series_stale(c, m1, token, observed, nows.drop_first());
    let series = spec_attempt_series(c, m, token, observed, nows);
    let rest = spec_attempt_series(c, m1, token, observed, nows.drop_first());
    assert forall|i: int| 1 <= i < nows.len() implies series.1[i] == Ok::<
        (TokenData, bool),
        TokenError,
    >((winner, false)) by {
        assert(series.1[i] == rest.1[i - 1]);
    }
}

/// Law: a renewal attempt never loses a live record. Whatever timestamp the
/// attempt observed — however stale — if the record is present and not yet
/// expired, the attempt returns it: renewed to `now` when the observation
/// still matched, or adopted as stored when it did not; never `NotFound`,
/// and the record stays in the store.
pub proof fn lemma_renewal_keeps_live_record(
    c: TokenConfig,
    m: StoreModel,
    token: Seq<char>,
    observed: int,
    now: int,
)
    requires
        m.contains_key(token),
        now - m[token].modified_at <= c.ttl_seconds,
    ensures
        ({
            let outcome = spec_attempt_renewal(c, m, token, observed, now);
            &&& outcome.0.contains_key(token)
            &&& outcome.1 == Ok::<(TokenData, bool), TokenError>((spec_touch(m[token], now), true))
                || outcome.1 == Ok::<(TokenData, bool), TokenError>((m[token], false))
        }),
{
}

/// Law: a revoked token validates to `NotFound`, whatever the time and
/// whether or not renewal was asked for, and the validation changes nothing.
pub proof fn lemma_revoke_then_validate(
    c: TokenConfig,
    m: StoreModel,
    token: Seq<char>,
    renew_if_needed: bool,
    now: int,
)
    ensures
        ({
            let revoked = m.remove(token);
            let outcome = spec_validate(c, revoked, token, renew_if_needed, now);
            outcome.0 == revoked && outcome.1 == Err::<(TokenData, bool), TokenError>(
                TokenError::NotFound,
            )
        }),
{
}

/// Law: bulk revocation for a user removes exactly the tokens whose payload
/// carries that user's identifier — every one of them, and no other — and
/// leaves the remaining records untouched.
pub proof fn lemma_revoke_all_exact(m: StoreModel, user_id: int)
    ensures
        forall|k: Seq<char>| #[trigger]
            spec_revoke_all(m, user_id).contains_key(k) <==> m.contains_key(k) && m[k].user_id
                != user_id,
        forall|k: Seq<char>| #[trigger]
            spec_revoke_all(m, user_id).contains_key(k) ==> spec_revoke_all(m, user_id)[k] == m[k],
{
}

/// Law: the sweep removes exactly the records older than its cutoff and
/// leaves the remaining records untouched.
pub proof fn lemma_sweep_exact(m: StoreModel, cutoff: int)
    ensures
        forall|k: Seq<char>| #[trigger]
            spec_sweep(m, cutoff).contains_key(k) <==> m.contains_key(k) && m[k].modified_at
                >= cutoff,
        forall|k: Seq<char>| #[trigger]
            spec_sweep(m, cutoff).contains_key(k) ==> spec_sweep(m, cutoff)[k] == m[k],
{
}

} // verus!
