//! Per-key state and the storage contract that limiters are written against.

pub mod memory;
pub mod remote;

pub use memory::MemoryStorage;

use vstd::prelude::*;

verus! {

/// The state of one token bucket.
///
/// The balance is counted in credit units (see [`crate::credit`]): a keyed
/// bucket earns `max_request` units per nanosecond and a request costs
/// `window_nanos` units, so the bucket holds `credit / window_nanos` tokens.
#[derive(Clone, Copy, Debug, PartialEq, Eq, Structural)]
pub struct BucketState {
    /// The balance in credit units.
    pub credit: u128,
    /// The monotonic time, in nanoseconds, of the last refill.
    pub last_refill: u64,
}

/// The state of one sliding window.
#[derive(Clone, Copy, Debug, PartialEq, Eq, Structural)]
pub struct WindowState {
    /// Requests admitted in the window before the current one.
    pub prev_count: u32,
    /// Requests admitted in the current window.
    pub curr_count: u32,
    /// The monotonic time, in nanoseconds, at which the current window began.
    pub window_start: u64,
}

/// The map of a backend that holds no state at all.
pub open spec fn no_entries<T>() -> Map<Seq<char>, T> {
    Map::empty()
}

/// What a map of states holds for a key.
pub open spec fn stored<T>(entries: Map<Seq<char>, T>, key: Seq<char>) -> Option<T> {
    if entries.contains_key(key) {
        Some(entries[key])
    } else {
        None
    }
}

/// A key-value backend for limiter state.
///
/// A backend is described by the map of states it holds. A backend that is
/// `dependable` answers `get` from that map and records every `set` in it.
/// One that is not (a remote store that may fail, expire keys or lose a
/// write) promises nothing: limiters treat a missing answer as "no prior
/// state" and a lost write as acceptable. A backend that does not say
/// otherwise is taken not to be dependable.
pub trait RateLimitStorage<T> {
    /// The states that the backend holds, by key.
    open spec fn entries(&self) -> Map<Seq<char>, T> {
        no_entries()
    }

    /// Whether `get` and `set` behave exactly as `entries` says.
    open spec fn dependable(&self) -> bool {
        false
    }

    /// The state stored for `key`, if any.
    fn get(&self, key: &str) -> (state: Option<T>)
        ensures
            self.dependable() ==> state == stored(self.entries(), key@),
    ;

    /// Stores `state` for `key`, replacing what was there.
    fn set(&mut self, key: &str, state: T)
        ensures
            old(self).dependable() ==> final(self).dependable() && final(self).entries() == old(
                self,
            ).entries().insert(key@, state),
    ;
}

/// Storing a state and reading the key back gives that state, and leaves
/// every other key as it was.
pub proof fn lemma_set_then_get<T>(entries: Map<Seq<char>, T>, key: Seq<char>, state: T)
    ensures
        stored(entries.insert(key, state), key) == Some(state),
        forall|other: Seq<char>|
            other != key ==> #[trigger] stored(entries.insert(key, state), other) == stored(
                entries,
                other,
            ),
{
}

} // verus!
