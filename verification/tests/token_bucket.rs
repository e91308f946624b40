use rate_limiter::algorithms::token_bucket::decide;
use rate_limiter::algorithms::TokenBucketLimiter;
use rate_limiter::clock::CLOCK_ORIGIN;
use rate_limiter::error::RateLimitError;
use rate_limiter::storage::{BucketState, MemoryStorage, RateLimitStorage};
use rate_limiter::{RateLimitConfig, RateLimitResult, RateLimiter, SharedTokenBucket, TokenBucket};

const SECOND: u64 = 1_000_000_000;

fn five_per_ten_seconds() -> RateLimitConfig {
    RateLimitConfig::new(5, 10 * SECOND)
}

fn exhausted(config: &RateLimitConfig, now: u64) -> BucketState {
    let mut prior = None;
    for _ in 0..config.max_request {
        let (state, result) = decide(config, prior, now);
        assert!(result.allowed);
        prior = Some(state);
    }
    prior.unwrap()
}

#[test]
fn fresh_bucket_admits_exactly_the_quota() {
    let config = five_per_ten_seconds();
    let now = 42 * SECOND;
    let mut prior = None;
    for used in 0..5u32 {
        let (state, result) = decide(&config, prior, now);
        assert_eq!(
            result,
            RateLimitResult { allowed: true, remaining: 4 - used, retry_after_nanos: 0 }
        );
        assert_eq!(state.credit, u128::from(4 - used) * u128::from(10 * SECOND));
        assert_eq!(state.last_refill, now);
        prior = Some(state);
    }
    let (state, result) = decide(&config, prior, now);
    assert!(!result.allowed);
    assert_eq!(result.remaining, 0);
    assert_eq!(state.credit, 0);
}

#[test]
fn quota_of_one_admits_one() {
    let config = RateLimitConfig::new(1, SECOND);
    let (state, first) = decide(&config, None, 0);
    assert_eq!(first, RateLimitResult { allowed: true, remaining: 0, retry_after_nanos: 0 });
    let (_, second) = decide(&config, Some(state), 0);
    assert_eq!(second, RateLimitResult { allowed: false, remaining: 0, retry_after_nanos: SECOND });
}

#[test]
fn exhausted_bucket_is_denied_until_a_whole_token_has_accrued() {
    let config = five_per_ten_seconds();
    let empty = exhausted(&config, 0);
    // Half a token per second: one nanosecond short of two seconds is not enough.
    let (state, result) = decide(&config, Some(empty), 2 * SECOND - 1);
    assert_eq!(result, RateLimitResult { allowed: false, remaining: 0, retry_after_nanos: 1 });
    assert_eq!(state.credit, u128::from(10 * SECOND) - 5);
    assert_eq!(state.last_refill, 2 * SECOND - 1);
}

#[test]
fn exhausted_bucket_admits_once_after_two_seconds() {
    let config = five_per_ten_seconds();
    let empty = exhausted(&config, 0);
    let (state, result) = decide(&config, Some(empty), 2 * SECOND);
    assert_eq!(result, RateLimitResult { allowed: true, remaining: 0, retry_after_nanos: 0 });
    assert_eq!(state.credit, 0);
    let (_, again) = decide(&config, Some(state), 2 * SECOND);
    assert!(!again.allowed);
}

#[test]
fn exhausted_bucket_holds_two_tokens_after_four_seconds() {
    let config = five_per_ten_seconds();
    let empty = exhausted(&config, 0);
    let (state, result) = decide(&config, Some(empty), 4 * SECOND);
    assert_eq!(result, RateLimitResult { allowed: true, remaining: 1, retry_after_nanos: 0 });
    assert_eq!(state.credit, u128::from(10 * SECOND));
}

#[test]
fn denial_keeps_the_refill_progress() {
    let config = five_per_ten_seconds();
    let empty = exhausted(&config, 0);
    let (after_one, denied) = decide(&config, Some(empty), SECOND);
    assert!(!denied.allowed);
    assert_eq!(denied.retry_after_nanos, SECOND);
    let (_, admitted) = decide(&config, Some(after_one), 2 * SECOND);
    assert!(admitted.allowed);
}

#[test]
fn retry_after_is_rounded_up_to_whole_nanoseconds() {
    // Three tokens per ten nanoseconds: an empty bucket needs 10 / 3 ns, so 4.
    let config = RateLimitConfig::new(3, 10);
    let empty = BucketState { credit: 0, last_refill: 0 };
    let (state, result) = decide(&config, Some(empty), 0);
    assert_eq!(result, RateLimitResult { allowed: false, remaining: 0, retry_after_nanos: 4 });
    let (_, early) = decide(&config, Some(state), 3);
    assert!(!early.allowed);
    let (_, on_time) = decide(&config, Some(state), 4);
    assert!(on_time.allowed);
}

#[test]
fn waiting_retry_after_is_enough() {
    let config = RateLimitConfig::new(7, 3 * SECOND);
    let start = BucketState { credit: 1_234_567, last_refill: 10 };
    let (state, denied) = decide(&config, Some(start), 20);
    assert!(!denied.allowed);
    let (_, later) = decide(&config, Some(state), 20 + denied.retry_after_nanos);
    assert!(later.allowed);
    let (_, sooner) = decide(&config, Some(state), 20 + denied.retry_after_nanos - 1);
    assert!(!sooner.allowed);
}

#[test]
fn balance_never_exceeds_a_full_bucket() {
    let config = five_per_ten_seconds();
    let full = u128::from(5u32) * u128::from(10 * SECOND);
    let idle = BucketState { credit: full, last_refill: 0 };
    let (state, result) = decide(&config, Some(idle), u64::MAX);
    assert_eq!(result.remaining, 4);
    assert_eq!(state.credit, full - u128::from(10 * SECOND));
    let overfull = BucketState { credit: u128::MAX, last_refill: 0 };
    let (state, result) = decide(&config, Some(overfull), u64::MAX);
    assert!(result.allowed);
    assert_eq!(state.credit, full - u128::from(10 * SECOND));
}

#[test]
fn largest_bucket_policy_does_not_overflow() {
    let config = RateLimitConfig::new(u32::MAX, u64::MAX);
    let (state, result) = decide(&config, None, u64::MAX);
    assert_eq!(
        result,
        RateLimitResult { allowed: true, remaining: u32::MAX - 1, retry_after_nanos: 0 }
    );
    assert_eq!(state.credit, u128::from(u32::MAX - 1) * u128::from(u64::MAX));
    let empty = BucketState { credit: 0, last_refill: 0 };
    let (_, denied) = decide(&config, Some(empty), 0);
    assert_eq!(denied.retry_after_nanos, 4_294_967_297);
}

#[test]
fn clock_running_backward_earns_nothing() {
    let config = five_per_ten_seconds();
    let empty = BucketState { credit: 0, last_refill: 100 * SECOND };
    let (state, result) = decide(&config, Some(empty), 50 * SECOND);
    assert!(!result.allowed);
    assert_eq!(result.retry_after_nanos, 2 * SECOND);
    assert_eq!(state, BucketState { credit: 0, last_refill: 50 * SECOND });
}

#[test]
fn unseen_key_is_checked_like_a_full_bucket() {
    let config = five_per_ten_seconds();
    let now = 7 * SECOND;
    let full = BucketState { credit: u128::from(5u32) * u128::from(10 * SECOND), last_refill: now };
    assert_eq!(decide(&config, None, now), decide(&config, Some(full), now));
}

#[test]
fn bucket_limiter_tracks_each_key_on_its_own() {
    let config = RateLimitConfig::new(2, SECOND);
    let mut limiter = TokenBucketLimiter::new(config, MemoryStorage::<BucketState>::new()).unwrap();
    assert!(limiter.check_at("alice", 0).allowed);
    assert!(limiter.check_at("alice", 0).allowed);
    let denied = limiter.check_at("alice", 0);
    assert_eq!(
        denied,
        RateLimitResult { allowed: false, remaining: 0, retry_after_nanos: SECOND / 2 }
    );
    let other = limiter.check_at("bob", 0);
    assert_eq!(other, RateLimitResult { allowed: true, remaining: 1, retry_after_nanos: 0 });
}

#[test]
fn bucket_limiter_stores_the_state_after_every_check() {
    let config = RateLimitConfig::new(2, SECOND);
    let mut limiter = TokenBucketLimiter::new(config, MemoryStorage::<BucketState>::new()).unwrap();
    limiter.check_at("k", 0);
    limiter.check_at("k", 0);
    // A denial at a quarter of a second stores the quarter that was earned ...
    assert!(!limiter.check_at("k", SECOND / 4).allowed);
    // ... so that another quarter of a second completes the token.
    assert!(limiter.check_at("k", SECOND / 2).allowed);
}

#[test]
fn bucket_limiter_reset_to_default_behaves_like_a_new_key() {
    let config = five_per_ten_seconds();
    let now = 3 * SECOND;
    let mut storage = MemoryStorage::<BucketState>::new();
    storage.set(
        "reset",
        BucketState { credit: u128::from(5u32) * u128::from(10 * SECOND), last_refill: now },
    );
    let mut limiter = TokenBucketLimiter::new(config, storage).unwrap();
    let reset = limiter.check_at("reset", now);
    let unseen = limiter.check_at("unseen", now);
    assert_eq!(reset, unseen);
}

#[test]
fn bucket_limiter_check_reads_its_own_clock() {
    // One token per hour: the checks below take far less than that.
    let config = RateLimitConfig::new(3, 3 * 3600 * SECOND);
    let mut limiter = TokenBucketLimiter::new(config, MemoryStorage::<BucketState>::new()).unwrap();
    assert_eq!(limiter.check("k").remaining, 2);
    assert_eq!(limiter.check("k").remaining, 1);
    assert_eq!(limiter.check("k").remaining, 0);
    let denied = limiter.check("k");
    assert!(!denied.allowed);
    assert_eq!(denied.remaining, 0);
    assert!(denied.retry_after_nanos > 0);
    assert!(denied.retry_after_nanos <= 3600 * SECOND);
}

#[test]
fn standalone_bucket_rejects_a_zero_parameter() {
    assert!(matches!(TokenBucket::new(0, 1, SECOND), Err(RateLimitError::ConfigError(_))));
    assert!(matches!(TokenBucket::new(5, 0, SECOND), Err(RateLimitError::ConfigError(_))));
    assert!(matches!(TokenBucket::new(5, 1, 0), Err(RateLimitError::ConfigError(_))));
    assert!(TokenBucket::new(1, 1, 1).is_ok());
}

#[test]
fn standalone_bucket_starts_full_and_drains() {
    // Three tokens, one more every two seconds.
    let mut bucket = TokenBucket::new(3, 1, 2 * SECOND).unwrap();
    let start = CLOCK_ORIGIN;
    assert_eq!(bucket.retry_after(), 0);
    assert_eq!(bucket.remaining_at(start), 3);
    assert!(bucket.try_acquire_at(start));
    assert!(bucket.try_acquire_at(start));
    assert_eq!(bucket.remaining_at(start), 1);
    assert!(bucket.try_acquire_at(start));
    assert!(!bucket.try_acquire_at(start));
    assert_eq!(bucket.remaining_at(start), 0);
    assert_eq!(bucket.retry_after(), 2 * SECOND);
}

#[test]
fn standalone_bucket_refills_over_time() {
    let mut bucket = TokenBucket::new(3, 1, 2 * SECOND).unwrap();
    let start = CLOCK_ORIGIN;
    for _ in 0..3 {
        assert!(bucket.try_acquire_at(start));
    }
    assert!(!bucket.try_acquire_at(start + SECOND));
    assert_eq!(bucket.retry_after(), SECOND);
    assert!(bucket.try_acquire_at(start + 2 * SECOND));
    assert!(!bucket.try_acquire_at(start + 2 * SECOND));
    // A long pause fills the bucket, and no further.
    assert_eq!(bucket.remaining_at(start + 1_000 * SECOND), 3);
    assert_eq!(bucket.remaining_at(start + 2_000 * SECOND), 3);
}

#[test]
fn standalone_bucket_counts_from_the_origin_of_its_clock() {
    let mut bucket = TokenBucket::new(1, 1, 2 * SECOND).unwrap();
    assert!(bucket.try_acquire_at(CLOCK_ORIGIN));
    let mut bucket = TokenBucket::new(1, 1, 2 * SECOND).unwrap();
    // A time before the clock was made earns nothing and moves the refill back.
    assert!(bucket.try_acquire_at(CLOCK_ORIGIN - 10 * SECOND));
    assert!(!bucket.try_acquire_at(CLOCK_ORIGIN - 9 * SECOND));
    assert!(bucket.try_acquire_at(CLOCK_ORIGIN - 8 * SECOND));
}

#[test]
fn standalone_bucket_reads_its_own_clock() {
    let mut bucket = TokenBucket::new(2, 1, 3600 * SECOND).unwrap();
    assert_eq!(bucket.remaining(), 2);
    assert!(bucket.try_acquire());
    assert!(bucket.try_acquire());
    assert!(!bucket.try_acquire());
    assert_eq!(bucket.remaining(), 0);
    assert!(bucket.retry_after() > 0);
}

#[test]
fn shared_bucket_rejects_a_zero_parameter() {
    assert!(matches!(SharedTokenBucket::new(0, 1, SECOND), Err(RateLimitError::ConfigError(_))));
    assert!(matches!(SharedTokenBucket::new(1, 0, SECOND), Err(RateLimitError::ConfigError(_))));
    assert!(matches!(SharedTokenBucket::new(1, 1, 0), Err(RateLimitError::ConfigError(_))));
}

#[test]
fn shared_bucket_serves_all_its_handles_from_one_balance() {
    let first = SharedTokenBucket::new(2, 1, 3600 * SECOND).unwrap();
    let second = first.clone();
    assert!(matches!(first.try_acquire(), Ok(true)));
    assert!(matches!(second.try_acquire(), Ok(true)));
    assert!(matches!(first.try_acquire(), Ok(false)));
    assert!(matches!(second.try_acquire(), Ok(false)));
}

#[test]
fn into_shared_keeps_the_balance() {
    let mut bucket = TokenBucket::new(2, 1, 3600 * SECOND).unwrap();
    assert!(bucket.try_acquire_at(CLOCK_ORIGIN));
    let shared = bucket.into_shared();
    assert!(matches!(shared.try_acquire(), Ok(true)));
    assert!(matches!(shared.try_acquire(), Ok(false)));
}

#[test]
fn standalone_bucket_says_which_parameter_is_wrong() {
    match TokenBucket::new(0, 0, 0) {
        Err(error) => {
            assert_eq!(error.message(), "Invaild configuration: capacity must be positive")
        }
        Ok(_) => panic!("a zero capacity must be rejected"),
    }
    match TokenBucket::new(1, 0, 5) {
        Err(error) => {
            assert_eq!(error.message(), "Invaild configuration: refill rate must be positive")
        }
        Ok(_) => panic!("a zero refill amount must be rejected"),
    }
    match SharedTokenBucket::new(1, 5, 0) {
        Err(error) => {
            assert_eq!(error.message(), "Invaild configuration: refill rate must be positive")
        }
        Ok(_) => panic!("a zero refill period must be rejected"),
    }
}

#[test]
fn poisoned_lock_is_reported_as_a_storage_lock_error() {
    match SharedTokenBucket::acquire_held(None) {
        Err(error) => {
            assert!(matches!(error, RateLimitError::StorageLock(_)));
            assert_eq!(error.message(), "Storage lock failed: token bucket lock is poisoned");
        }
        Ok(_) => panic!("a poisoned lock must not count as capacity"),
    }
}

#[test]
fn held_lock_serves_the_bucket_behind_it() {
    let lock = std::sync::Mutex::new(TokenBucket::new(1, 1, 3600 * SECOND).unwrap());
    assert!(matches!(SharedTokenBucket::acquire_held(lock.lock().ok()), Ok(true)));
    assert!(matches!(SharedTokenBucket::acquire_held(lock.lock().ok()), Ok(false)));
}

#[test]
fn burst_spread_over_a_short_span_gets_exactly_the_quota() {
    // Half a second earns a quarter of a token: not enough for a sixth request.
    let config = five_per_ten_seconds();
    let mut prior = None;
    for used in 0..5u32 {
        let now = CLOCK_ORIGIN + u64::from(used) * (SECOND / 10);
        let (state, result) = decide(&config, prior, now);
        assert_eq!(
            result,
            RateLimitResult { allowed: true, remaining: 4 - used, retry_after_nanos: 0 }
        );
        prior = Some(state);
    }
    let (state, sixth) = decide(&config, prior, CLOCK_ORIGIN + SECOND / 2);
    assert!(!sixth.allowed);
    assert_eq!(sixth.remaining, 0);
    assert_eq!(state.credit, u128::from(5u32) * u128::from(SECOND / 2));
    assert_eq!(sixth.retry_after_nanos, 3 * SECOND / 2);
}
