//! The one clock read the manager needs: seconds since the Unix epoch.

use vstd::prelude::*;

use crate::config::MAX_TIMESTAMP;

verus! {

/// Relies on `std::time::SystemTime::now` and `duration_since`: the whole
/// seconds since the Unix epoch, or zero if the system clock stands before
/// the epoch. The reading depends on the machine's clock, so nothing is
/// promised of the value.
#[verifier::external_body]
fn system_epoch_secs() -> u64 {
    std::time::SystemTime::now().duration_since(std::time::UNIX_EPOCH).unwrap_or_default().as_secs()
}

/// The current Unix timestamp in seconds, clamped into the arithmetic-safe
/// range every manager operation asks of its `now` argument. The clamp only
/// bites on a clock reading millions of years away.
pub fn current_epoch() -> (r: i64)
    ensures
        0 <= r <= MAX_TIMESTAMP,
{
    let secs = system_epoch_secs();
    if secs > MAX_TIMESTAMP as u64 {
        MAX_TIMESTAMP
    } else {
        secs as i64
    }
}

} // verus!
