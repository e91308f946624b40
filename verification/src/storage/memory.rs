//! The in-process backend: a concurrent map from key to state.

use super::{no_entries, stored, BucketState, RateLimitStorage, WindowState};
use dashmap::DashMap;
use vstd::prelude::*;
use vstd::string::*;

verus! {

/// `dashmap::DashMap`, a concurrent hash map. Nothing inside it is visible
/// here; what it holds is named by `bucket_entries` and `window_entries`.
#[verifier::external_type_specification]
#[verifier::external_body]
#[verifier::reject_recursive_types(K)]
#[verifier::reject_recursive_types(V)]
#[verifier::reject_recursive_types(S)]
pub struct ExDashMap<K, V, S>(DashMap<K, V, S>);

/// The bucket states that a `DashMap` holds, by the characters of the key.
pub uninterp spec fn bucket_entries(map: DashMap<String, BucketState>) -> Map<
    Seq<char>,
    BucketState,
>;

/// The window states that a `DashMap` holds, by the characters of the key.
pub uninterp spec fn window_entries(map: DashMap<String, WindowState>) -> Map<
    Seq<char>,
    WindowState,
>;

/// `DashMap::new` for bucket states: the new map holds nothing.
#[verifier::external_body]
fn bucket_map_new() -> (created: DashMap<String, BucketState>)
    ensures
        bucket_entries(created) == no_entries::<BucketState>(),
{
    DashMap::new()
}

/// `DashMap::get` for bucket states: a copy of the value stored under the
/// key, or `None` when the map has no such key.
#[verifier::external_body]
fn bucket_map_get(map: &DashMap<String, BucketState>, key: &str) -> (found: Option<BucketState>)
    ensures
        found == stored(bucket_entries(*map), key@),
{
    map.get(key).map(|entry| *entry.value())
}

/// `DashMap::insert` for bucket states: afterwards the key maps to the new
/// value and every other key is as before. The caller holds the map
/// exclusively, so nothing else writes to it meanwhile.
#[verifier::external_body]
fn bucket_map_insert(map: &mut DashMap<String, BucketState>, key: String, state: BucketState)
    ensures
        bucket_entries(*final(map)) == bucket_entries(*old(map)).insert(key@, state),
{
    map.insert(key, state);
}

/// `DashMap::new` for window states: the new map holds nothing.
#[verifier::external_body]
fn window_map_new() -> (created: DashMap<String, WindowState>)
    ensures
        window_entries(created) == no_entries::<WindowState>(),
{
    DashMap::new()
}

/// `DashMap::get` for window states: a copy of the value stored under the
/// key, or `None` when the map has no such key.
#[verifier::external_body]
fn window_map_get(map: &DashMap<String, WindowState>, key: &str) -> (found: Option<WindowState>)
    ensures
        found == stored(window_entries(*map), key@),
{
    map.get(key).map(|entry| *entry.value())
}

/// `DashMap::insert` for window states: afterwards the key maps to the new
/// value and every other key is as before. The caller holds the map
/// exclusively, so nothing else writes to it meanwhile.
#[verifier::external_body]
fn window_map_insert(map: &mut DashMap<String, WindowState>, key: String, state: WindowState)
    ensures
        window_entries(*final(map)) == window_entries(*old(map)).insert(key@, state),
{
    map.insert(key, state);
}

/// In-memory storage over a concurrent hash map.
///
/// Every operation is exact: the backend is always `dependable`.
#[verifier::reject_recursive_types(T)]
pub struct MemoryStorage<T> {
    data: DashMap<String, T>,
}

impl MemoryStorage<BucketState> {
    /// An empty store of bucket states.
    pub fn new() -> (storage: Self)
        ensures
            storage.dependable(),
            storage.entries() == no_entries::<BucketState>(),
    {
        MemoryStorage { data: bucket_map_new() }
    }
}

impl MemoryStorage<WindowState> {
    /// An empty store of window states.
    pub fn new() -> (storage: Self)
        ensures
            storage.dependable(),
            storage.entries() == no_entries::<WindowState>(),
    {
        MemoryStorage { data: window_map_new() }
    }
}

impl RateLimitStorage<BucketState> for MemoryStorage<BucketState> {
    closed spec fn entries(&self) -> Map<Seq<char>, BucketState> {
        bucket_entries(self.data)
    }

    open spec fn dependable(&self) -> bool {
        true
    }

    fn get(&self, key: &str) -> (state: Option<BucketState>) {
        bucket_map_get(&self.data, key)
    }

    fn set(&mut self, key: &str, state: BucketState) {
        bucket_map_insert(&mut self.data, String::from_str(key), state);
    }
}

impl RateLimitStorage<WindowState> for MemoryStorage<WindowState> {
    closed spec fn entries(&self) -> Map<Seq<char>, WindowState> {
        window_entries(self.data)
    }

    open spec fn dependable(&self) -> bool {
        true
    }

    fn get(&self, key: &str) -> (state: Option<WindowState>) {
        window_map_get(&self.data, key)
    }

    fn set(&mut self, key: &str, state: WindowState) {
        window_map_insert(&mut self.data, String::from_str(key), state);
    }
}

} // verus!
