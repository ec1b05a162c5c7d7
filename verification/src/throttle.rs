//! Rate-limit bookkeeping for the catalog lookup stage.
//!
//! The lookup stage issues at most one remote request per interval. Before
//! each request it asks how long to wait, given the current monotonic clock
//! reading in milliseconds; the wait is chosen so that the new issue time is
//! at least one interval after the previous one. Sleeping itself is the
//! caller's concern — this type only decides the durations and records the
//! issue times.

use vstd::prelude::*;

verus! {

/// The minimum number of milliseconds between two outbound catalog lookups.
pub const RATE_LIMIT_MS: u64 = 1000;

/// Tracks when the previous lookup was issued.
#[derive(Debug)]
pub struct Throttle {
    /// Issue time of the previous request, in clock milliseconds.
    pub last_request: Option<u64>,
    /// Minimum spacing between requests, in milliseconds.
    pub interval_ms: u64,
}

/// How long to wait before issuing at clock reading `now`: nothing when no
/// request was issued yet or the interval has already passed, the remainder
/// of the interval otherwise.
pub open spec fn spec_wait_needed(last: Option<u64>, interval: u64, now: u64) -> int {
    match last {
        Some(t) => if now >= t + interval {
            0int
        } else {
            t + interval - now
        },
        None => 0int,
    }
}

impl Throttle {
    /// A throttle that has issued nothing yet.
    pub fn new(interval_ms: u64) -> (t: Self)
        ensures
            t.last_request is None,
            t.interval_ms == interval_ms,
    {
        Throttle { last_request: None, interval_ms }
    }

    /// Computes the wait before a request issued at clock reading `now_ms`
    /// and records the issue time that waiting leaves us at.
    ///
    /// The recorded issue time `now_ms + w` is at least one interval after
    /// the previous issue time: the rate limit.
    pub fn throttle(&mut self, now_ms: u64) -> (w: u64)
        requires
            old(self).last_request matches Some(t) ==> t + old(self).interval_ms <= u64::MAX,
            now_ms + old(self).interval_ms <= u64::MAX,
        ensures
            w == spec_wait_needed(old(self).last_request, old(self).interval_ms, now_ms),
            final(self).interval_ms == old(self).interval_ms,
            final(self).last_request == Some((now_ms + w) as u64),
            old(self).last_request matches Some(t) ==> now_ms + w >= t + old(self).interval_ms,
    {
        let wait: u64 = match self.last_request {
            Some(t) => {
                let ready = t + self.interval_ms;
                if now_ms >= ready {
                    0
                } else {
                    ready - now_ms
                }
            },
            None => 0,
        };
        self.last_request = Some(now_ms + wait);
        wait
    }
}

impl Default for Throttle {
    /// A throttle at the catalog's fixed rate limit.
    fn default() -> (t: Self)
        ensures
            t.last_request is None,
            t.interval_ms == RATE_LIMIT_MS,
    {
        Throttle::new(RATE_LIMIT_MS)
    }
}

/// Rate limit: for any two consecutive issue times `t1` (recorded) and
/// `t2 == now + wait` (the one the throttle chooses next), at least one
/// interval lies between them.
pub proof fn lemma_rate_limit(t1: u64, interval: u64, now: u64)
    requires
        t1 + interval <= u64::MAX,
    ensures
        now + spec_wait_needed(Some(t1), interval, now) >= t1 + interval,
{
}

} // verus!
