//! The two admission algorithms and the keyed limiters built on them.

pub mod shared;
pub mod sliding_window;
pub mod token_bucket;

pub use shared::SharedTokenBucket;
pub use sliding_window::SlidingWindowLimiter;
pub use token_bucket::TokenBucket;
pub use token_bucket::TokenBucketLimiter;

use crate::RateLimitConfig;
use vstd::prelude::*;

verus! {

/// A keyed limiter as contracts see it: its policy, and the backend it
/// keeps its per-key state in.
pub struct LimiterView<T> {
    /// The policy the limiter was built with.
    pub config: RateLimitConfig,
    /// The states that the backend holds, by key.
    pub entries: Map<Seq<char>, T>,
    /// Whether the backend behaves exactly as `entries` says.
    pub dependable: bool,
}

impl<T> LimiterView<T> {
    /// The same limiter with `state` stored for `key`.
    pub open spec fn with_state(self, key: Seq<char>, state: T) -> Self {
        LimiterView {
            config: self.config,
            entries: self.entries.insert(key, state),
            dependable: self.dependable,
        }
    }
}

} // verus!
