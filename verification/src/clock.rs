//! Time as the cache sees it.
//!
//! An instant is a count of nanoseconds on a monotonic clock, held in a
//! `u64`. A deadline is an instant plus a whole number of seconds; it is
//! held in a `u128`, so that no instant and no time-to-live can overflow it.

use vstd::prelude::*;

verus! {

/// Nanoseconds in one second.
pub const NANOS_PER_SEC: u128 = 1_000_000_000;

/// The instant at which an entry written at `now` with a time-to-live of
/// `ttl_seconds` stops being visible.
pub open spec fn deadline_of(now: u64, ttl_seconds: u64) -> int {
    now + ttl_seconds * 1_000_000_000
}

/// Whether a deadline has been reached at `now`. An entry without a
/// deadline never expires; one with a deadline is expired from that very
/// instant on.
pub open spec fn expired_at(expires_at: Option<u128>, now: u64) -> bool {
    expires_at matches Some(d) && d <= now
}

/// Whole seconds between `now` and `deadline`, rounded down; zero once the
/// deadline has passed.
pub open spec fn seconds_between(now: u64, deadline: u128) -> int {
    if now < deadline {
        (deadline - now) / 1_000_000_000
    } else {
        0
    }
}

/// A deadline fits in 128 bits whatever the instant and the time-to-live,
/// and it lies after the instant of writing where the time-to-live is not
/// zero.
pub proof fn lemma_deadline_fits(now: u64, ttl_seconds: u64)
    ensures
        now <= deadline_of(now, ttl_seconds) <= u128::MAX,
        ttl_seconds > 0 ==> now < deadline_of(now, ttl_seconds),
{
}

/// Computes the deadline of an entry written at `now` that lives for
/// `ttl_seconds`.
pub fn deadline(now: u64, ttl_seconds: u64) -> (d: u128)
    ensures
        d == deadline_of(now, ttl_seconds),
{
    now as u128 + ttl_seconds as u128 * NANOS_PER_SEC
}

/// Tells whether `expires_at` has been reached at `now`.
pub fn is_expired(expires_at: Option<u128>, now: u64) -> (r: bool)
    ensures
        r == expired_at(expires_at, now),
{
    match expires_at {
        Some(d) => d <= now as u128,
        None => false,
    }
}

/// Computes the whole seconds left until `deadline`.
pub fn seconds_left(now: u64, deadline: u128) -> (s: u128)
    ensures
        s == seconds_between(now, deadline),
{
    if (now as u128) < deadline {
        (deadline - now as u128) / NANOS_PER_SEC
    } else {
        0
    }
}

} // verus!
