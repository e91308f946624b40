//! Monotonic time in whole nanoseconds.

use std::time::Duration;
use std::time::Instant;
use vstd::prelude::*;

verus! {

/// `std::time::Instant`, a reading of the monotonic clock. Nothing inside
/// it is visible here.
#[verifier::external_type_specification]
#[verifier::external_body]
pub struct ExInstant(Instant);

/// `Instant::now` reads the machine's monotonic clock; nothing is promised
/// of the reading.
pub assume_specification[ Instant::now ]() -> Instant
;

/// `Instant::elapsed` is the time that has passed since the instant was
/// taken; nothing is promised of the amount.
pub assume_specification[ Instant::elapsed ](anchor: &Instant) -> Duration
;

/// `Duration::as_nanos` is the length of a duration in nanoseconds; a
/// duration is opaque here, so nothing is promised of the number.
pub assume_specification[ Duration::as_nanos ](length: &Duration) -> u128
;

/// The nanoseconds from `then` to `now`, and zero if the clock ran backward.
pub open spec fn elapsed_between(then: u64, now: u64) -> nat {
    if now >= then {
        (now - then) as nat
    } else {
        0
    }
}

/// Computes [`elapsed_between`].
pub fn elapsed_since(then: u64, now: u64) -> (elapsed: u64)
    ensures
        elapsed == elapsed_between(then, now),
{
    if now >= then {
        now - then
    } else {
        0
    }
}

/// A monotonic clock that counts nanoseconds from the moment it was made.
///
/// The clock shows [`CLOCK_ORIGIN`] at that moment, not zero, so that an
/// instant before the clock was made still has a timestamp.
#[derive(Clone, Copy, Debug)]
pub struct MonotonicClock {
    anchor: Instant,
}

impl MonotonicClock {
    /// A clock that starts counting now.
    pub fn new() -> Self {
        MonotonicClock { anchor: Instant::now() }
    }

    /// The timestamp of this moment: the origin plus the nanoseconds
    /// since the clock was made, held at `u64::MAX` once it no longer fits.
    pub fn now(&self) -> (reading: u64)
        ensures
            reading >= CLOCK_ORIGIN,
    {
        timestamp_after(self.anchor.elapsed().as_nanos())
    }
}

/// What a clock shows at the moment it is made: the middle of the range
/// of timestamps, some 292 years from either end.
pub const CLOCK_ORIGIN: u64 = 0x8000_0000_0000_0000;

/// The timestamp that a clock shows `nanos` nanoseconds after it was
/// made: the origin plus the count while that fits, and `u64::MAX` from
/// then on.
pub open spec fn timestamp_of(nanos: u128) -> u64 {
    if CLOCK_ORIGIN + nanos > u64::MAX {
        u64::MAX
    } else {
        (CLOCK_ORIGIN + nanos) as u64
    }
}

/// Computes [`timestamp_of`].
pub fn timestamp_after(nanos: u128) -> (timestamp: u64)
    ensures
        timestamp == timestamp_of(nanos),
        timestamp >= CLOCK_ORIGIN,
{
    if nanos > (u64::MAX - CLOCK_ORIGIN) as u128 {
        u64::MAX
    } else {
        CLOCK_ORIGIN + nanos as u64
    }
}

} // verus!
