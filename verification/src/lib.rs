//! A pluggable rate-limiting core.
//!
//! Given a caller identity (a key) and a configured quota, a limiter decides
//! whether the next request is admitted, tracks the remaining quota and says
//! how long to wait after a denial. All time is measured in whole nanoseconds
//! on a monotonic clock, and all quota arithmetic is exact integer arithmetic.

pub mod algorithms;
pub mod clock;
pub mod credit;
pub mod error;
pub mod storage;

pub use algorithms::SharedTokenBucket;
pub use algorithms::TokenBucket;

use crate::error::RateLimitError;
use vstd::prelude::*;
use vstd::string::*;

verus! {

/// The policy of one limiter: at most `max_request` requests per window of
/// `window_nanos` nanoseconds.
#[derive(Clone, Copy, Debug, PartialEq, Eq, Structural)]
pub struct RateLimitConfig {
    /// Requests allowed per window.
    pub max_request: u32,
    /// Length of the window in nanoseconds.
    pub window_nanos: u64,
}

impl RateLimitConfig {
    /// A policy is usable when both the quota and the window are positive.
    pub open spec fn is_valid(&self) -> bool {
        self.max_request > 0 && self.window_nanos > 0
    }

    /// What is wrong with a policy that is not usable: the quota is named
    /// first when both numbers are zero.
    pub open spec fn complaint(&self) -> Seq<char> {
        if self.max_request == 0 {
            "max_request must be positive"@
        } else {
            "window must be positive"@
        }
    }

    /// Records the two numbers as given; limiters reject an unusable policy
    /// when they are constructed.
    pub fn new(max_request: u32, window_nanos: u64) -> (config: Self)
        ensures
            config.max_request == max_request,
            config.window_nanos == window_nanos,
    {
        Self { max_request, window_nanos }
    }
}

/// A policy that has been found usable. Limiters hold their policy in
/// this form, so that every check can rely on a positive quota and window.
#[derive(Clone, Copy, Debug)]
pub struct ValidConfig {
    config: RateLimitConfig,
}

impl View for ValidConfig {
    type V = RateLimitConfig;

    closed spec fn view(&self) -> RateLimitConfig {
        self.config
    }
}

impl ValidConfig {
    #[verifier::type_invariant]
    spec fn holds(&self) -> bool {
        self.config.is_valid()
    }

    /// Accepts a policy whose quota and window are both positive, and
    /// reports any other as a configuration error.
    pub fn new(config: RateLimitConfig) -> (checked: Result<Self, RateLimitError>)
        ensures
            checked is Ok <==> config.is_valid(),
            checked matches Ok(valid) ==> valid@ == config,
            checked matches Err(error) ==> error matches RateLimitError::ConfigError(cause)
                && cause@ == config.complaint(),
    {
        if config.max_request == 0 {
            Err(RateLimitError::ConfigError(String::from_str("max_request must be positive")))
        } else if config.window_nanos == 0 {
            Err(RateLimitError::ConfigError(String::from_str("window must be positive")))
        } else {
            Ok(ValidConfig { config })
        }
    }

    /// The policy, which is known to be usable.
    pub fn get(&self) -> (config: RateLimitConfig)
        ensures
            config == self@,
            config.is_valid(),
    {
        proof {
            use_type_invariant(self);
        }
        self.config
    }
}

/// The outcome of one check.
#[derive(Clone, Copy, Debug, PartialEq, Eq, Structural)]
pub struct RateLimitResult {
    /// Whether the request is admitted.
    pub allowed: bool,
    /// How many further requests could be admitted right now.
    pub remaining: u32,
    /// How long to wait before trying again, in nanoseconds.
    pub retry_after_nanos: u64,
}

impl RateLimitResult {
    /// What holds of every outcome: an admitted request is not told to
    /// wait, and a denied one leaves no quota.
    pub open spec fn consistent(&self) -> bool {
        &&& self.allowed ==> self.retry_after_nanos == 0
        &&& !self.allowed ==> self.remaining == 0
    }

    /// The wait in whole seconds, rounded down, as a `Retry-After`
    /// header carries it.
    pub fn retry_after_secs(&self) -> (seconds: u64)
        ensures
            seconds == self.retry_after_nanos / 1_000_000_000,
    {
        self.retry_after_nanos / 1_000_000_000
    }
}

/// The one operation that every limiter offers.
pub trait RateLimiter {
    /// Decides whether the next request for `key` is admitted, and records
    /// the decision.
    fn check(&mut self, key: &str) -> (result: RateLimitResult)
        ensures
            result.consistent(),
    ;
}

} // verus!
