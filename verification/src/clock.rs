//! Reckoning with clock readings.
use vstd::prelude::*;

verus! {

/// Clock readings are in nanoseconds since the proxy was started.
pub const NANOS_PER_SEC: u64 = 1_000_000_000;

/// The whole seconds from one clock reading to another; none if the clock ran backwards.
pub open spec fn secs_between(since: u64, now: u64) -> u64 {
    if now <= since {
        0
    } else {
        ((now - since) / NANOS_PER_SEC as int) as u64
    }
}

/// The whole seconds from one clock reading to another.
pub fn elapsed_secs(since: u64, now: u64) -> (secs: u64)
    ensures
        secs == secs_between(since, now),
{
    now.saturating_sub(since) / NANOS_PER_SEC
}

/// Whole seconds are those that have passed in full: no more than have passed, and all but a
/// part of one. A clock that runs backwards has let none pass.
pub proof fn law_whole_seconds(since: u64, now: u64)
    ensures
        now <= since ==> secs_between(since, now) == 0,
        since <= now ==> secs_between(since, now) * 1_000_000_000 <= now - since,
        since <= now ==> now - since < (secs_between(since, now) + 1) * 1_000_000_000,
{
}

} // verus!
