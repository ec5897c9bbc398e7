//! The rate limiter that gates how often a poll may touch the network.

use vstd::prelude::*;

verus! {

/// A poll is allowed once at least `min_interval_ms` milliseconds have
/// elapsed since the last successful poll.
pub open spec fn spec_poll_allowed(now_ms: u64, last_poll_ms: u64, min_interval_ms: u64) -> bool {
    last_poll_ms + min_interval_ms <= now_ms
}

/// Decides whether a poll may perform network traffic at `now_ms`, given the
/// instant of the last successful poll and the configured minimum interval.
///
/// When this returns `false` the caller serves the cached reading instead of
/// touching the network: a cache hit, never a failure.
pub fn poll_allowed(now_ms: u64, last_poll_ms: u64, min_interval_ms: u64) -> (allowed: bool)
    ensures
        allowed == spec_poll_allowed(now_ms, last_poll_ms, min_interval_ms),
{
    now_ms >= last_poll_ms && now_ms - last_poll_ms >= min_interval_ms
}

} // verus!
