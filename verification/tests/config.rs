use rate_limiter::algorithms::{SlidingWindowLimiter, TokenBucketLimiter};
use rate_limiter::error::RateLimitError;
use rate_limiter::storage::{BucketState, MemoryStorage, WindowState};
use rate_limiter::{RateLimitConfig, RateLimitResult, ValidConfig};

#[test]
fn config_new_keeps_both_numbers() {
    let config = RateLimitConfig::new(5, 10_000_000_000);
    assert_eq!(config.max_request, 5);
    assert_eq!(config.window_nanos, 10_000_000_000);
}

#[test]
fn valid_config_accepts_positive_numbers() {
    let config = RateLimitConfig::new(1, 1);
    let valid = ValidConfig::new(config).expect("a positive quota and window are usable");
    assert_eq!(valid.get(), config);
}

#[test]
fn valid_config_rejects_zero_quota() {
    let made = ValidConfig::new(RateLimitConfig::new(0, 1_000));
    assert!(matches!(made, Err(RateLimitError::ConfigError(_))));
}

#[test]
fn valid_config_rejects_zero_window() {
    let made = ValidConfig::new(RateLimitConfig::new(10, 0));
    assert!(matches!(made, Err(RateLimitError::ConfigError(_))));
}

#[test]
fn token_bucket_limiter_rejects_zero_quota() {
    let made = TokenBucketLimiter::new(
        RateLimitConfig::new(0, 1_000_000_000),
        MemoryStorage::<BucketState>::new(),
    );
    assert!(matches!(made, Err(RateLimitError::ConfigError(_))));
}

#[test]
fn token_bucket_limiter_rejects_zero_window() {
    let made =
        TokenBucketLimiter::new(RateLimitConfig::new(5, 0), MemoryStorage::<BucketState>::new());
    assert!(matches!(made, Err(RateLimitError::ConfigError(_))));
}

#[test]
fn sliding_window_limiter_rejects_zero_quota() {
    let made = SlidingWindowLimiter::new(
        RateLimitConfig::new(0, 1_000_000_000),
        MemoryStorage::<WindowState>::new(),
    );
    assert!(matches!(made, Err(RateLimitError::ConfigError(_))));
}

#[test]
fn sliding_window_limiter_rejects_zero_window() {
    let made =
        SlidingWindowLimiter::new(RateLimitConfig::new(5, 0), MemoryStorage::<WindowState>::new());
    assert!(matches!(made, Err(RateLimitError::ConfigError(_))));
}

#[test]
fn limiters_keep_the_policy_they_were_given() {
    let config = RateLimitConfig::new(7, 3_000_000_000);
    let bucket = TokenBucketLimiter::new(config, MemoryStorage::<BucketState>::new()).unwrap();
    let window = SlidingWindowLimiter::new(config, MemoryStorage::<WindowState>::new()).unwrap();
    assert_eq!(bucket.config(), config);
    assert_eq!(window.config(), config);
}

#[test]
fn retry_after_secs_rounds_down() {
    let result = RateLimitResult { allowed: false, remaining: 0, retry_after_nanos: 2_999_999_999 };
    assert_eq!(result.retry_after_secs(), 2);
    let result = RateLimitResult { allowed: false, remaining: 0, retry_after_nanos: 999_999_999 };
    assert_eq!(result.retry_after_secs(), 0);
    let result = RateLimitResult { allowed: true, remaining: 3, retry_after_nanos: 0 };
    assert_eq!(result.retry_after_secs(), 0);
}

#[test]
fn error_messages_name_the_kind_and_the_cause() {
    assert_eq!(
        RateLimitError::RedisError(String::from("connection refused")).message(),
        "Redis connection error: connection refused"
    );
    assert_eq!(
        RateLimitError::StorageLock(String::from("poisoned")).message(),
        "Storage lock failed: poisoned"
    );
    assert_eq!(
        RateLimitError::ConfigError(String::from("window must be positive")).message(),
        "Invaild configuration: window must be positive"
    );
}

#[test]
fn config_error_says_which_number_is_wrong() {
    match ValidConfig::new(RateLimitConfig::new(0, 0)) {
        Err(error) => {
            assert_eq!(error.message(), "Invaild configuration: max_request must be positive")
        }
        Ok(_) => panic!("a zero quota must be rejected"),
    }
    match ValidConfig::new(RateLimitConfig::new(1, 0)) {
        Err(error) => assert_eq!(error.message(), "Invaild configuration: window must be positive"),
        Ok(_) => panic!("a zero window must be rejected"),
    }
}
