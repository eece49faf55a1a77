//! Token lifecycle configuration: time-to-live and renewal threshold.

use vstd::prelude::*;

verus! {

/// Upper bound, in seconds, on every timestamp, time-to-live and threshold
/// the manager works with. Keeping all time values within this bound lets
/// every sum and difference of a few of them fit in an `i64`. The bound is
/// about nine million years past the Unix epoch, so it excludes no clock
/// reading that could ever be meant.
pub const MAX_TIMESTAMP: i64 = 0x4000_0000_0000;

/// Lower bound for configured durations; see [`MAX_TIMESTAMP`].
pub const MIN_DURATION: i64 = -0x4000_0000_0000;

/// Default time-to-live of a token, in seconds.
pub const DEFAULT_TTL_SECONDS: i64 = 300;

/// Default age, in seconds, past which a validation may renew a token.
pub const DEFAULT_RENEW_THRESHOLD_SECONDS: i64 = 30;

/// Lifecycle policy knobs, captured once at manager construction.
#[derive(Clone, Copy, Debug, PartialEq, Eq, Structural)]
pub struct TokenConfig {
    /// Maximum age, in seconds, a token stays valid without renewal.
    pub ttl_seconds: i64,
    /// Age, in seconds, from which a validation attempt extends the token.
    pub renew_threshold_seconds: i64,
}

/// A configuration the manager can do arithmetic on without overflow:
/// both durations bounded by [`MAX_TIMESTAMP`] in magnitude.
pub open spec fn config_wf(c: TokenConfig) -> bool {
    &&& -MAX_TIMESTAMP <= c.ttl_seconds <= MAX_TIMESTAMP
    &&& -MAX_TIMESTAMP <= c.renew_threshold_seconds <= MAX_TIMESTAMP
}

/// Clamps a configured duration into the range `config_wf` asks for.
fn clamp_duration(v: i64) -> (r: i64)
    ensures
        r == spec_clamp_duration(v),
{
    if v < MIN_DURATION {
        MIN_DURATION
    } else if v > MAX_TIMESTAMP {
        MAX_TIMESTAMP
    } else {
        v
    }
}

/// What `clamp_duration` returns.
pub open spec fn spec_clamp_duration(v: i64) -> i64 {
    if v < MIN_DURATION {
        MIN_DURATION
    } else if v > MAX_TIMESTAMP {
        MAX_TIMESTAMP
    } else {
        v
    }
}

impl TokenConfig {
    /// Builds the configuration from optional overrides, falling back to the
    /// defaults (300 s time-to-live, 30 s renewal threshold) where an
    /// override is absent. An override of absurd magnitude is clamped to the
    /// arithmetic-safe range; every realistic value passes through unchanged.
    pub fn from_overrides(ttl_seconds: Option<i64>, renew_threshold_seconds: Option<i64>) -> (r:
        TokenConfig)
        ensures
            config_wf(r),
            r.ttl_seconds == match ttl_seconds {
                Some(v) => spec_clamp_duration(v),
                None => DEFAULT_TTL_SECONDS,
            },
            r.renew_threshold_seconds == match renew_threshold_seconds {
                Some(v) => spec_clamp_duration(v),
                None => DEFAULT_RENEW_THRESHOLD_SECONDS,
            },
    {
        let ttl = match ttl_seconds {
            Some(v) => clamp_duration(v),
            None => DEFAULT_TTL_SECONDS,
        };
        let renew = match renew_threshold_seconds {
            Some(v) => clamp_duration(v),
            None => DEFAULT_RENEW_THRESHOLD_SECONDS,
        };
        TokenConfig { ttl_seconds: ttl, renew_threshold_seconds: renew }
    }

    /// The interval, in seconds, at which the background sweep should run:
    /// half the time-to-live, but never under 30 seconds, and 30 seconds
    /// flat when the time-to-live is not positive.
    pub fn cleanup_interval_seconds(&self) -> (r: i64)
        requires
            config_wf(*self),
        ensures
            r == spec_cleanup_interval_seconds(*self),
            30 <= r <= MAX_TIMESTAMP,
    {
        if self.ttl_seconds > 0 {
            let half = self.ttl_seconds / 2;
            if half > 30 {
                half
            } else {
                30
            }
        } else {
            30
        }
    }
}

/// The sweep interval policy: `max(ttl / 2, 30)` for a positive
/// time-to-live, 30 seconds flat otherwise.
pub open spec fn spec_cleanup_interval_seconds(c: TokenConfig) -> int {
    if c.ttl_seconds > 0 {
        if c.ttl_seconds / 2 > 30 {
            c.ttl_seconds / 2
        } else {
            30
        }
    } else {
        30
    }
}

} // verus!
