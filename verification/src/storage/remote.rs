//! The record layout of the external shared backend.
//!
//! A bucket is kept under two names derived from the key: its balance, and
//! the wall-clock time of its last refill in milliseconds since the Unix
//! epoch. Monotonic timestamps mean nothing to another process, so a
//! writer turns "refilled so long ago" into a wall-clock time and a reader
//! turns that time back into a timestamp on its own monotonic clock.
//! Reading and writing the store itself is left to the caller.

use crate::clock::{elapsed_between, elapsed_since};
use crate::storage::BucketState;
use vstd::prelude::*;
use vstd::string::*;

verus! {

/// Nanoseconds in a millisecond.
pub const NANOS_PER_MILLI: u64 = 1_000_000;

/// Nanoseconds in a second.
pub const NANOS_PER_SECOND: u64 = 1_000_000_000;

/// The name under which everything about `key` is kept.
pub fn build_key(key: &str) -> (name: String)
    ensures
        name@ == "ratelimit:"@ + key@,
{
    let mut name = String::from_str("ratelimit:");
    name.append(key);
    name
}

/// The name of the field that holds the balance of `key`.
pub fn tokens_key(key: &str) -> (name: String)
    ensures
        name@ == "ratelimit:"@ + key@ + ":tokens"@,
{
    let mut name = build_key(key);
    name.append(":tokens");
    name
}

/// The name of the field that holds the last refill time of `key`.
pub fn last_refill_key(key: &str) -> (name: String)
    ensures
        name@ == "ratelimit:"@ + key@ + ":last_refill"@,
{
    let mut name = build_key(key);
    name.append(":last_refill");
    name
}

/// The time to live of both fields, in seconds: the window, rounded up to
/// whole seconds so that a key never expires before its window has passed.
pub open spec fn ttl_of(window_nanos: u64) -> nat {
    ((window_nanos + NANOS_PER_SECOND - 1) / NANOS_PER_SECOND as int) as nat
}

/// Computes [`ttl_of`].
pub fn ttl_seconds(window_nanos: u64) -> (seconds: u64)
    ensures
        seconds == ttl_of(window_nanos),
        seconds * NANOS_PER_SECOND >= window_nanos,
        window_nanos > 0 ==> seconds > 0,
{
    let whole = window_nanos / NANOS_PER_SECOND;
    if window_nanos % NANOS_PER_SECOND == 0 {
        whole
    } else {
        whole + 1
    }
}

/// The wall-clock time of a refill, in milliseconds since the epoch, as
/// seen by a writer whose monotonic clock shows `now` while the wall clock
/// shows `now_epoch_ms`: the whole milliseconds since the refill, taken
/// off the wall-clock time.
pub open spec fn epoch_millis_of(last_refill: u64, now: u64, now_epoch_ms: i64) -> int {
    now_epoch_ms - elapsed_between(last_refill, now) / NANOS_PER_MILLI as nat
}

/// The monotonic timestamp of a refill as seen by a reader whose monotonic
/// clock shows `now` while the wall clock shows `now_epoch_ms`: the
/// milliseconds since the stored time (none, if the stored time lies
/// ahead), taken off `now`. A clock shows a timestamp far above zero when
/// it is made, so a refill from before the reader's clock was made keeps
/// its age; only one further back than timestamps reach is placed at
/// zero.
pub open spec fn monotonic_of(stored_ms: i64, now: u64, now_epoch_ms: i64) -> nat {
    let elapsed_ms: int = if now_epoch_ms >= stored_ms {
        now_epoch_ms - stored_ms
    } else {
        0
    };
    if elapsed_ms * NANOS_PER_MILLI <= now {
        (now - elapsed_ms * NANOS_PER_MILLI) as nat
    } else {
        0
    }
}

/// Computes [`epoch_millis_of`]. The wall clock must not be set before the
/// epoch.
pub fn to_epoch_millis(last_refill: u64, now: u64, now_epoch_ms: i64) -> (stored_ms: i64)
    requires
        now_epoch_ms >= 0,
    ensures
        stored_ms == epoch_millis_of(last_refill, now, now_epoch_ms),
{
    let elapsed_ms = elapsed_since(last_refill, now) / NANOS_PER_MILLI;
    now_epoch_ms - elapsed_ms as i64
}

/// Computes [`monotonic_of`].
pub fn from_epoch_millis(stored_ms: i64, now: u64, now_epoch_ms: i64) -> (last_refill: u64)
    ensures
        last_refill == monotonic_of(stored_ms, now, now_epoch_ms),
        last_refill <= now,
{
    if now_epoch_ms < stored_ms {
        return now;
    }
    let elapsed_ms: u128 = (now_epoch_ms as i128 - stored_ms as i128) as u128;
    if elapsed_ms > (now / NANOS_PER_MILLI) as u128 {
        proof {
            let e = elapsed_ms as int;
            let n = now as int;
            assert(e * 1_000_000 > n) by (nonlinear_arith)
                requires
                    e > n / 1_000_000,
                    n >= 0,
            ;
        }
        0
    } else {
        let back: u64 = elapsed_ms as u64 * NANOS_PER_MILLI;
        now - back
    }
}

/// What a reader makes of the two fields of a key: a bucket state when
/// both are there, and no state when either is missing.
pub open spec fn decoded(
    credit: Option<u128>,
    stored_ms: Option<i64>,
    now: u64,
    now_epoch_ms: i64,
) -> Option<BucketState> {
    match (credit, stored_ms) {
        (Some(credit), Some(stored_ms)) => Some(
            BucketState {
                credit,
                last_refill: monotonic_of(stored_ms, now, now_epoch_ms) as u64,
            },
        ),
        _ => None,
    }
}

/// Computes [`decoded`].
pub fn decode(credit: Option<u128>, stored_ms: Option<i64>, now: u64, now_epoch_ms: i64) -> (state:
    Option<BucketState>)
    ensures
        state == decoded(credit, stored_ms, now, now_epoch_ms),
{
    match (credit, stored_ms) {
        (Some(credit), Some(stored_ms)) => Some(
            BucketState { credit, last_refill: from_epoch_millis(stored_ms, now, now_epoch_ms) },
        ),
        _ => None,
    }
}

/// What a writer puts into the two fields of a key: the balance as it is,
/// and the refill time on the wall clock.
pub fn encode(state: BucketState, now: u64, now_epoch_ms: i64) -> (fields: (u128, i64))
    requires
        now_epoch_ms >= 0,
    ensures
        fields.0 == state.credit,
        fields.1 == epoch_millis_of(state.last_refill, now, now_epoch_ms),
{
    (state.credit, to_epoch_millis(state.last_refill, now, now_epoch_ms))
}

/// Round trip: a state that is written and read back keeps its balance,
/// and its age, as the reader sees it, is the true age up to the
/// millisecond that the stored time drops and the drift between the two
/// clocks.
///
/// The writer's clocks show `(now, now_epoch_ms)` and the reader's
/// `(later, later_epoch_ms)`. The drift is how much further the monotonic
/// clock went than the wall clock did, and may be of either sign. The
/// reader's wall clock must not lie before the stored time, and the age
/// must not reach further back than timestamps do.
pub proof fn lemma_round_trip(
    state: BucketState,
    now: u64,
    now_epoch_ms: i64,
    later: u64,
    later_epoch_ms: i64,
)
    requires
        now_epoch_ms >= 0,
        state.last_refill <= now,
        epoch_millis_of(state.last_refill, now, now_epoch_ms) <= later_epoch_ms,
        (later_epoch_ms - epoch_millis_of(state.last_refill, now, now_epoch_ms)) * NANOS_PER_MILLI
            <= later,
    ensures
        ({
            let stored_ms = epoch_millis_of(state.last_refill, now, now_epoch_ms) as i64;
            let back = decoded(Some(state.credit), Some(stored_ms), later, later_epoch_ms);
            let drift = (later - now) - (later_epoch_ms - now_epoch_ms) * NANOS_PER_MILLI;
            let age = later - state.last_refill;
            &&& back is Some
            &&& back.unwrap().credit == state.credit
            &&& age - drift - NANOS_PER_MILLI < elapsed_between(back.unwrap().last_refill, later)
                <= age - drift
        }),
{
}

/// Round trip within a tolerance: when the two clocks have moved apart by
/// no more than `slack` nanoseconds between the write and the read, in
/// either direction, the state comes back with its balance, and with an
/// age that is less than `slack` plus one millisecond from the true one.
/// With clocks no more than 49 ms apart that is an age within 50 ms; read
/// at once, with both clocks unchanged, it is an age within a millisecond.
///
/// The refill must lie at least `slack` after the start of timestamps,
/// as every refill stamped by a clock does.
pub proof fn lemma_round_trip_within(
    state: BucketState,
    now: u64,
    now_epoch_ms: i64,
    later: u64,
    later_epoch_ms: i64,
    slack: nat,
)
    requires
        now_epoch_ms >= 0,
        slack <= state.last_refill <= now <= later,
        -slack <= (later - now) - (later_epoch_ms - now_epoch_ms) * NANOS_PER_MILLI <= slack,
    ensures
        ({
            let stored_ms = epoch_millis_of(state.last_refill, now, now_epoch_ms) as i64;
            let back = decoded(Some(state.credit), Some(stored_ms), later, later_epoch_ms);
            let seen = elapsed_between(back.unwrap().last_refill, later);
            let age = elapsed_between(state.last_refill, later);
            &&& back is Some
            &&& back.unwrap().credit == state.credit
            &&& age - (slack + NANOS_PER_MILLI) < seen < age + (slack + NANOS_PER_MILLI)
        }),
{
    let stored_ms = epoch_millis_of(state.last_refill, now, now_epoch_ms);
    if stored_ms <= later_epoch_ms {
        lemma_round_trip(state, now, now_epoch_ms, later, later_epoch_ms);
    }
}

} // verus!
