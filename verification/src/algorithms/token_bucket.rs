//! The token bucket: a balance that refills continuously up to a capacity
//! and pays one token for every admitted request.

use super::LimiterView;
use crate::clock::{elapsed_between, elapsed_since, MonotonicClock, CLOCK_ORIGIN};
use crate::credit::{
    full_credit, lemma_product_bound, lemma_refilled_bounds, lemma_wait_is_least, refill, refilled,
    tokens_in, wait_for_token, wait_nanos, whole_tokens,
};
use crate::error::RateLimitError;
use crate::storage::{stored, BucketState, RateLimitStorage};
use crate::{RateLimitConfig, RateLimitResult, RateLimiter, ValidConfig};
use vstd::prelude::*;
use vstd::string::*;

verus! {

/// The state of a key that has never been seen: a full bucket, refilled now.
pub open spec fn full_bucket(config: RateLimitConfig, now: u64) -> BucketState {
    BucketState {
        credit: full_credit(config.max_request as nat, config.window_nanos as nat) as u128,
        last_refill: now,
    }
}

/// The balance of a loaded state once it has been refilled up to `now`.
///
/// A keyed bucket refills `max_request` tokens per window, so it earns
/// `max_request` credit units per nanosecond and a token costs
/// `window_nanos` units.
pub open spec fn balance_at(config: RateLimitConfig, loaded: BucketState, now: u64) -> nat {
    refilled(
        config.max_request as nat,
        config.max_request as nat,
        config.window_nanos as nat,
        loaded.credit as nat,
        elapsed_between(loaded.last_refill, now),
    )
}

/// One check at `now` against the state that was loaded: the state to
/// store and the outcome to report.
pub open spec fn bucket_step(config: RateLimitConfig, prior: Option<BucketState>, now: u64) -> (
    BucketState,
    RateLimitResult,
) {
    let loaded = match prior {
        Some(state) => state,
        None => full_bucket(config, now),
    };
    let balance = balance_at(config, loaded, now);
    let cost = config.window_nanos as nat;
    if balance >= cost {
        (
            BucketState { credit: (balance - cost) as u128, last_refill: now },
            RateLimitResult {
                allowed: true,
                remaining: whole_tokens(cost, (balance - cost) as nat) as u32,
                retry_after_nanos: 0,
            },
        )
    } else {
        (
            BucketState { credit: balance as u128, last_refill: now },
            RateLimitResult {
                allowed: false,
                remaining: 0,
                retry_after_nanos: wait_nanos(config.max_request as nat, cost, balance) as u64,
            },
        )
    }
}

/// One check of the keyed token bucket at `now`.
///
/// `prior` is what storage held for the key. The first part of the answer
/// is the state to store, the second the outcome to report. The stored
/// balance never exceeds a full bucket.
pub fn decide(config: &RateLimitConfig, prior: Option<BucketState>, now: u64) -> (step: (
    BucketState,
    RateLimitResult,
))
    requires
        config.is_valid(),
    ensures
        step == bucket_step(*config, prior, now),
        step.1.consistent(),
        step.0.credit <= full_credit(config.max_request as nat, config.window_nanos as nat),
        step.0.last_refill == now,
{
    let max = config.max_request;
    let cost = config.window_nanos;
    proof {
        lemma_product_bound(max as nat, cost as nat);
    }
    let loaded = match prior {
        Some(state) => state,
        None => BucketState { credit: (max as u128) * (cost as u128), last_refill: now },
    };
    let elapsed = elapsed_since(loaded.last_refill, now);
    let balance = refill(max, max, cost, loaded.credit, elapsed);
    if balance >= cost as u128 {
        let left: u128 = balance - cost as u128;
        let remaining = tokens_in(max, cost, left);
        (
            BucketState { credit: left, last_refill: now },
            RateLimitResult { allowed: true, remaining, retry_after_nanos: 0 },
        )
    } else {
        let wait = wait_for_token(max, cost, balance);
        (
            BucketState { credit: balance, last_refill: now },
            RateLimitResult { allowed: false, remaining: 0, retry_after_nanos: wait },
        )
    }
}

/// The state stored for a key after checks at the given times, in order,
/// starting from what storage held.
pub open spec fn bucket_after(config: RateLimitConfig, prior: Option<BucketState>, times: Seq<u64>)
    -> Option<BucketState>
    decreases times.len(),
{
    if times.len() == 0 {
        prior
    } else {
        Some(bucket_step(config, bucket_after(config, prior, times.drop_last()), times.last()).0)
    }
}

/// Whatever was loaded, the stored balance is within the bucket and the
/// outcome is consistent.
pub proof fn lemma_step_within_bucket(
    config: RateLimitConfig,
    prior: Option<BucketState>,
    now: u64,
)
    requires
        config.is_valid(),
    ensures
        bucket_step(config, prior, now).0.credit <= full_credit(
            config.max_request as nat,
            config.window_nanos as nat,
        ),
        bucket_step(config, prior, now).0.last_refill == now,
        bucket_step(config, prior, now).1.consistent(),
{
    let max = config.max_request as nat;
    let cost = config.window_nanos as nat;
    lemma_product_bound(max, cost);
    let loaded = match prior {
        Some(state) => state,
        None => full_bucket(config, now),
    };
    lemma_refilled_bounds(
        max,
        max,
        cost,
        loaded.credit as nat,
        elapsed_between(loaded.last_refill, now),
    );
    let balance = balance_at(config, loaded, now);
    if balance < cost {
        lemma_wait_is_least(max, cost, balance);
    }
}

/// Saturation: after any sequence of checks, at any times and from any
/// stored state, the balance is no more than a full bucket (and, being a
/// natural number, never negative).
pub proof fn lemma_saturation(config: RateLimitConfig, prior: Option<BucketState>, times: Seq<u64>)
    requires
        config.is_valid(),
        times.len() > 0,
    ensures
        bucket_after(config, prior, times) is Some,
        bucket_after(config, prior, times).unwrap().credit <= full_credit(
            config.max_request as nat,
            config.window_nanos as nat,
        ),
{
    lemma_step_within_bucket(
        config,
        bucket_after(config, prior, times.drop_last()),
        times.last(),
    );
}

/// After `count` immediate checks of a fresh bucket, `count` tokens are
/// gone and nothing else has changed.
proof fn lemma_burst_state(config: RateLimitConfig, now: u64, count: nat)
    requires
        config.is_valid(),
        count <= config.max_request,
    ensures
        bucket_after(config, None, Seq::new(count, |i: int| now)) == if count == 0 {
            None
        } else {
            Some(
                BucketState {
                    credit: ((config.max_request - count) * config.window_nanos) as u128,
                    last_refill: now,
                },
            )
        },
    decreases count,
{
    let times = Seq::new(count, |i: int| now);
    if count > 0 {
        let earlier = (count - 1) as nat;
        lemma_burst_state(config, now, earlier);
        assert(times.drop_last() =~= Seq::new(earlier, |i: int| now));
        lemma_burst_step(config, now, earlier);
    }
}

/// The check that follows `count` immediate checks of a fresh bucket,
/// given the state those checks left.
proof fn lemma_burst_step(config: RateLimitConfig, now: u64, count: nat)
    requires
        config.is_valid(),
        count <= config.max_request,
    ensures
        ({
            let before = if count == 0 {
                None
            } else {
                Some(
                    BucketState {
                        credit: ((config.max_request - count) * config.window_nanos) as u128,
                        last_refill: now,
                    },
                )
            };
            let step = bucket_step(config, before, now);
            &&& count < config.max_request ==> step.1 == (RateLimitResult {
                allowed: true,
                remaining: (config.max_request - count - 1) as u32,
                retry_after_nanos: 0,
            }) && step.0 == (BucketState {
                credit: ((config.max_request - count - 1) * config.window_nanos) as u128,
                last_refill: now,
            })
            &&& count == config.max_request ==> !step.1.allowed && step.1.remaining == 0
        }),
{
    let max = config.max_request as int;
    let cost = config.window_nanos as int;
    let left = max - count;
    lemma_product_bound(max as nat, cost as nat);
    assert(0 <= left * cost <= max * cost) by (nonlinear_arith)
        requires
            0 <= left <= max,
            cost > 0,
    ;
    assert(elapsed_between(now, now) * (max as nat) == 0) by (nonlinear_arith)
        requires
            elapsed_between(now, now) == 0,
    ;
    if left > 0 {
        assert(left * cost >= cost && (left - 1) * cost == left * cost - cost && ((left - 1)
            * cost) / cost == left - 1) by (nonlinear_arith)
            requires
                left >= 1,
                cost > 0,
        ;
    } else {
        assert(left * cost == 0) by (nonlinear_arith)
            requires
                left == 0,
        ;
    }
}

/// Exact quota: a fresh bucket admits exactly `max_request` immediate
/// checks. The check after `count` earlier ones is admitted and reports
/// `max_request - count - 1` remaining while `count < max_request`; the
/// one after `max_request` is denied and reports nothing remaining.
pub proof fn lemma_exact_quota(config: RateLimitConfig, now: u64, count: nat)
    requires
        config.is_valid(),
        count <= config.max_request,
    ensures
        ({
            let before = bucket_after(config, None, Seq::new(count, |i: int| now));
            let result = bucket_step(config, before, now).1;
            &&& count < config.max_request ==> result.allowed && result.remaining
                == config.max_request - count - 1 && result.retry_after_nanos == 0
            &&& count == config.max_request ==> !result.allowed && result.remaining == 0
        }),
{
    lemma_burst_state(config, now, count);
    lemma_burst_step(config, now, count);
}

/// Times in order, none before an earlier one.
pub open spec fn in_order(times: Seq<u64>) -> bool {
    forall|i: int, j: int| 0 <= i <= j < times.len() ==> times[i] <= times[j]
}

/// After a burst of checks on a fresh bucket during which less than one
/// token accrues, each check has taken one token and the bucket holds
/// what accrued since the first.
proof fn lemma_span_state(config: RateLimitConfig, times: Seq<u64>)
    requires
        config.is_valid(),
        0 < times.len() <= config.max_request,
        in_order(times),
        (times.last() - times[0]) * config.max_request < config.window_nanos,
    ensures
        bucket_after(config, None, times) == Some(
            BucketState {
                credit: ((config.max_request - times.len()) * config.window_nanos + (times.last()
                    - times[0]) * config.max_request) as u128,
                last_refill: times.last(),
            },
        ),
        bucket_after(config, None, times).unwrap().credit == (config.max_request - times.len())
            * config.window_nanos + (times.last() - times[0]) * config.max_request,
    decreases times.len(),
{
    let max = config.max_request as int;
    let cost = config.window_nanos as int;
    let first = times[0] as int;
    let last = times.last() as int;
    let earlier = times.drop_last();
    lemma_product_bound(max as nat, cost as nat);
    if times.len() == 1 {
        assert(bucket_after(config, None, earlier) == None::<BucketState>);
        lemma_span_step(config, None, first, last, 0);
    } else {
        let before = earlier.last() as int;
        assert(earlier[0] == times[0]);
        assert(first <= before <= last);
        assert((before - first) * max <= (last - first) * max) by (nonlinear_arith)
            requires
                0 <= before - first <= last - first,
                max > 0,
        ;
        lemma_span_state(config, earlier);
        lemma_span_step(
            config,
            bucket_after(config, None, earlier),
            first,
            last,
            earlier.len(),
        );
    }
}

/// One check of a burst: the check at `now` after `count` earlier ones,
/// the first of them at `first`, with less than one token accrued since.
proof fn lemma_span_step(
    config: RateLimitConfig,
    before: Option<BucketState>,
    first: int,
    now: int,
    count: nat,
)
    requires
        config.is_valid(),
        count <= config.max_request,
        0 <= first <= now <= u64::MAX,
        (now - first) * config.max_request < config.window_nanos,
        count == 0 ==> before is None && first == now,
        count > 0 ==> before is Some,
        count > 0 ==> first <= before.unwrap().last_refill <= now,
        count > 0 ==> before.unwrap().credit == (config.max_request - count) * config.window_nanos
            + (before.unwrap().last_refill - first) * config.max_request,
    ensures
        ({
            let step = bucket_step(config, before, now as u64);
            &&& count < config.max_request ==> step.1 == (RateLimitResult {
                allowed: true,
                remaining: (config.max_request - count - 1) as u32,
                retry_after_nanos: 0,
            }) && step.0 == (BucketState {
                credit: ((config.max_request - count - 1) * config.window_nanos + (now - first)
                    * config.max_request) as u128,
                last_refill: now as u64,
            })
            &&& count < config.max_request ==> step.0.credit == (config.max_request - count - 1)
                * config.window_nanos + (now - first) * config.max_request
            &&& count == config.max_request ==> !step.1.allowed && step.1.remaining == 0
        }),
{
    let max = config.max_request as int;
    let cost = config.window_nanos as int;
    let left = max - count;
    let earned = (now - first) * max;
    lemma_product_bound(max as nat, cost as nat);
    assert(0 <= earned) by (nonlinear_arith)
        requires
            earned == (now - first) * max,
            now >= first,
            max > 0,
    ;
    assert(0 <= left * cost && left * cost + cost <= max * cost + cost) by (nonlinear_arith)
        requires
            0 <= left <= max,
            cost > 0,
    ;
    if count == 0 {
        assert(elapsed_between(now as u64, now as u64) * (max as nat) == 0) by (nonlinear_arith)
            requires
                elapsed_between(now as u64, now as u64) == 0,
        ;
        assert(earned == 0) by (nonlinear_arith)
            requires
                earned == (now - first) * max,
                now == first,
        ;
    } else {
        let state = before.unwrap();
        let then = state.last_refill as int;
        assert((then - first) * max + (now - then) * max == earned) by (nonlinear_arith)
            requires
                earned == (now - first) * max,
        ;
        assert((now - then) * max >= 0) by (nonlinear_arith)
            requires
                now >= then,
                max > 0,
        ;
        assert(elapsed_between(state.last_refill, now as u64) * (max as nat) == (now - then) * max);
        assert(left * cost + earned < max * cost) by (nonlinear_arith)
            requires
                left <= max - 1,
                earned < cost,
                cost > 0,
        ;
    }
    if left > 0 {
        assert(left * cost + earned >= cost && (left - 1) * cost + earned == left * cost + earned
            - cost && ((left - 1) * cost + earned) / cost == left - 1) by (nonlinear_arith)
            requires
                left >= 1,
                cost > 0,
                0 <= earned < cost,
        ;
    } else {
        assert(left * cost == 0) by (nonlinear_arith)
            requires
                left == 0,
        ;
    }
}

/// Exact quota over a span: a fresh bucket admits exactly `max_request`
/// checks of a burst during which less than one token accrues, whatever
/// the times of the checks within it. The check at `now` after the
/// checks at `times` is admitted and reports `max_request - times.len()
/// - 1` remaining while fewer than `max_request` came before; the one
/// after `max_request` is denied and reports nothing remaining.
pub proof fn lemma_exact_quota_over_a_span(config: RateLimitConfig, times: Seq<u64>, now: u64)
    requires
        config.is_valid(),
        times.len() <= config.max_request,
        in_order(times.push(now)),
        (now - times.push(now)[0]) * config.max_request < config.window_nanos,
    ensures
        ({
            let result = bucket_step(config, bucket_after(config, None, times), now).1;
            &&& times.len() < config.max_request ==> result.allowed && result.remaining
                == config.max_request - times.len() - 1 && result.retry_after_nanos == 0
            &&& times.len() == config.max_request ==> !result.allowed && result.remaining == 0
        }),
{
    let all = times.push(now);
    let max = config.max_request as int;
    if times.len() == 0 {
        lemma_span_step(config, None, now as int, now as int, 0);
    } else {
        let first = times[0] as int;
        let last = times.last() as int;
        assert(all[0] == times[0] && all[times.len() - 1] == times.last() && all[times.len() as int]
            == now);
        assert(first <= last <= now);
        assert forall|i: int, j: int| 0 <= i <= j < times.len() implies times[i] <= times[j] by {
            assert(all[i] == times[i] && all[j] == times[j]);
        }
        assert((last - first) * max <= (now - first) * max) by (nonlinear_arith)
            requires
                0 <= last - first <= now - first,
                max > 0,
        ;
        lemma_span_state(config, times);
        lemma_span_step(config, bucket_after(config, None, times), first, now as int, times.len());
    }
}

/// A denied caller who waits as long as it was told is admitted: the
/// check `retry_after_nanos` later, on the state that the denial stored,
/// finds a whole token.
pub proof fn lemma_retry_after_suffices(
    config: RateLimitConfig,
    prior: Option<BucketState>,
    now: u64,
)
    requires
        config.is_valid(),
        !bucket_step(config, prior, now).1.allowed,
        now + bucket_step(config, prior, now).1.retry_after_nanos <= u64::MAX,
    ensures
        bucket_step(config, prior, now).1.retry_after_nanos > 0,
        bucket_step(
            config,
            Some(bucket_step(config, prior, now).0),
            (now + bucket_step(config, prior, now).1.retry_after_nanos) as u64,
        ).1.allowed,
{
    let max = config.max_request as nat;
    let cost = config.window_nanos as nat;
    lemma_step_within_bucket(config, prior, now);
    lemma_product_bound(max, cost);
    let denied = bucket_step(config, prior, now);
    let balance = denied.0.credit as nat;
    lemma_wait_is_least(max, cost, balance);
    let wait = wait_nanos(max, cost, balance);
    assert(denied.1.retry_after_nanos == wait);
    let later = (now + wait) as u64;
    assert(elapsed_between(now, later) == wait);
    assert(full_credit(max, cost) >= cost) by (nonlinear_arith)
        requires
            max >= 1,
            full_credit(max, cost) == max * cost,
    ;
}

/// Idempotent defaults: a key that was never seen is checked exactly as a
/// key whose state was reset to a full bucket at the time of the check.
pub proof fn lemma_unseen_is_full(config: RateLimitConfig, now: u64)
    requires
        config.is_valid(),
    ensures
        bucket_step(config, None, now) == bucket_step(config, Some(full_bucket(config, now)), now),
{
}

/// One check of a limiter over a dependable backend: the limiter afterwards
/// and the outcome. The state under the key is loaded, stepped and stored
/// back, whether the request was admitted or not.
pub open spec fn bucket_check(view: LimiterView<BucketState>, key: Seq<char>, now: u64) -> (
    LimiterView<BucketState>,
    RateLimitResult,
) {
    let step = bucket_step(view.config, stored(view.entries, key), now);
    (view.with_state(key, step.0), step.1)
}

/// Idempotent defaults for a limiter: checking a key that the backend
/// does not hold gives the same outcome, and leaves the same limiter, as
/// checking it after a full bucket was stored for it.
pub proof fn lemma_unseen_key_is_full(view: LimiterView<BucketState>, key: Seq<char>, now: u64)
    requires
        view.config.is_valid(),
        !view.entries.contains_key(key),
    ensures
        bucket_check(view, key, now) == bucket_check(
            view.with_state(key, full_bucket(view.config, now)),
            key,
            now,
        ),
{
    let reset = view.with_state(key, full_bucket(view.config, now));
    let plain = bucket_check(view, key, now);
    let again = bucket_check(reset, key, now);
    assert(plain.0.entries =~= again.0.entries);
}

/// The limiter after checks of `key` at the given times, in order, over
/// a dependable backend.
pub open spec fn bucket_checks(view: LimiterView<BucketState>, key: Seq<char>, times: Seq<u64>)
    -> LimiterView<BucketState>
    decreases times.len(),
{
    if times.len() == 0 {
        view
    } else {
        bucket_check(bucket_checks(view, key, times.drop_last()), key, times.last()).0
    }
}

/// Checks of one key go by the state of that key alone: they take it
/// through the states that `bucket_after` names, and leave the policy and
/// every other key as they were.
pub proof fn lemma_checks_follow_the_key(
    view: LimiterView<BucketState>,
    key: Seq<char>,
    times: Seq<u64>,
)
    ensures
        bucket_checks(view, key, times).config == view.config,
        bucket_checks(view, key, times).dependable == view.dependable,
        stored(bucket_checks(view, key, times).entries, key) == bucket_after(
            view.config,
            stored(view.entries, key),
            times,
        ),
        forall|other: Seq<char>|
            other != key ==> #[trigger] stored(bucket_checks(view, key, times).entries, other)
                == stored(view.entries, other),
    decreases times.len(),
{
    if times.len() > 0 {
        let earlier = bucket_checks(view, key, times.drop_last());
        lemma_checks_follow_the_key(view, key, times.drop_last());
        assert forall|other: Seq<char>| other != key implies #[trigger] stored(
            bucket_checks(view, key, times).entries,
            other,
        ) == stored(view.entries, other) by {
            assert(stored(earlier.entries, other) == stored(view.entries, other));
        }
    }
}

/// The quota of a limiter: on a key that the backend does not hold, the
/// check after `count` immediate checks is admitted and reports
/// `max_request - count - 1` remaining while `count < max_request`, and
/// the one after `max_request` is denied and reports nothing remaining.
pub proof fn lemma_limiter_exact_quota(
    view: LimiterView<BucketState>,
    key: Seq<char>,
    now: u64,
    count: nat,
)
    requires
        view.config.is_valid(),
        !view.entries.contains_key(key),
        count <= view.config.max_request,
    ensures
        ({
            let before = bucket_checks(view, key, Seq::new(count, |i: int| now));
            let result = bucket_check(before, key, now).1;
            &&& count < view.config.max_request ==> result.allowed && result.remaining
                == view.config.max_request - count - 1 && result.retry_after_nanos == 0
            &&& count == view.config.max_request ==> !result.allowed && result.remaining == 0
        }),
{
    lemma_checks_follow_the_key(view, key, Seq::new(count, |i: int| now));
    lemma_exact_quota(view.config, now, count);
}

/// What holds of a check at `now` that took a limiter from `before` to
/// `after` and reported `result`.
///
/// Whatever the backend answered, the outcome is the token bucket's
/// decision on some prior state and the policy is unchanged. Over a
/// dependable backend the prior state is the stored one and the new state
/// is stored back.
pub open spec fn is_check_at(
    before: LimiterView<BucketState>,
    after: LimiterView<BucketState>,
    key: Seq<char>,
    now: u64,
    result: RateLimitResult,
) -> bool {
    &&& after.config == before.config
    &&& exists|prior: Option<BucketState>|
        result == #[trigger] bucket_step(before.config, prior, now).1
    &&& before.dependable ==> (after, result) == bucket_check(before, key, now)
}

/// The keyed token-bucket limiter over a storage backend.
pub struct TokenBucketLimiter<S: RateLimitStorage<BucketState>> {
    storage: S,
    config: ValidConfig,
    clock: MonotonicClock,
}

impl<S: RateLimitStorage<BucketState>> View for TokenBucketLimiter<S> {
    type V = LimiterView<BucketState>;

    closed spec fn view(&self) -> LimiterView<BucketState> {
        LimiterView {
            config: self.config@,
            entries: self.storage.entries(),
            dependable: self.storage.dependable(),
        }
    }
}

impl<S: RateLimitStorage<BucketState>> TokenBucketLimiter<S> {
    /// A limiter with a clock of its own. An unusable policy is rejected
    /// here, so that no check ever divides by zero.
    pub fn new(config: RateLimitConfig, storage: S) -> (made: Result<Self, RateLimitError>)
        ensures
            made is Ok <==> config.is_valid(),
            made matches Ok(limiter) ==> limiter@.config == config && limiter@.entries
                == storage.entries() && limiter@.dependable == storage.dependable(),
            made matches Err(error) ==> error matches RateLimitError::ConfigError(cause)
                && cause@ == config.complaint(),
    {
        Self::with_clock(config, storage, MonotonicClock::new())
    }

    /// A limiter that reads the given clock, for backends that convert
    /// the limiter's timestamps and so must read the same clock.
    pub fn with_clock(config: RateLimitConfig, storage: S, clock: MonotonicClock) -> (made: Result<
        Self,
        RateLimitError,
    >)
        ensures
            made is Ok <==> config.is_valid(),
            made matches Ok(limiter) ==> limiter@.config == config && limiter@.entries
                == storage.entries() && limiter@.dependable == storage.dependable(),
            made matches Err(error) ==> error matches RateLimitError::ConfigError(cause)
                && cause@ == config.complaint(),
    {
        match ValidConfig::new(config) {
            Ok(config) => Ok(TokenBucketLimiter { storage, config, clock }),
            Err(error) => Err(error),
        }
    }

    /// The policy the limiter was built with.
    pub fn config(&self) -> (config: RateLimitConfig)
        ensures
            config == self@.config,
            config.is_valid(),
    {
        self.config.get()
    }

    /// Loads the bucket of `key` (a full one if there is none), refills it
    /// up to `now`, decides, and stores the bucket back.
    fn get_or_create_bucket(&mut self, key: &str, now: u64) -> (outcome: (bool, u32, u64))
        ensures
            is_check_at(
                old(self)@,
                final(self)@,
                key@,
                now,
                RateLimitResult {
                    allowed: outcome.0,
                    remaining: outcome.1,
                    retry_after_nanos: outcome.2,
                },
            ),
            outcome.0 ==> outcome.2 == 0,
            !outcome.0 ==> outcome.1 == 0,
    {
        let config = self.config.get();
        let prior = self.storage.get(key);
        let (state, result) = decide(&config, prior, now);
        self.storage.set(key, state);
        assert(result == bucket_step(old(self)@.config, prior, now).1);
        (result.allowed, result.remaining, result.retry_after_nanos)
    }

    /// One check for `key` at the monotonic time `now`.
    pub fn check_at(&mut self, key: &str, now: u64) -> (result: RateLimitResult)
        ensures
            result.consistent(),
            is_check_at(old(self)@, final(self)@, key@, now, result),
    {
        let (allowed, remaining, retry_after_nanos) = self.get_or_create_bucket(key, now);
        RateLimitResult { allowed, remaining, retry_after_nanos }
    }
}

impl<S: RateLimitStorage<BucketState>> RateLimiter for TokenBucketLimiter<S> {
    /// One check for `key` at the time the limiter's clock shows.
    fn check(&mut self, key: &str) -> (result: RateLimitResult)
        ensures
            exists|now: u64|
                now >= CLOCK_ORIGIN && is_check_at(old(self)@, final(self)@, key@, now, result),
    {
        let now = self.clock.now();
        let result = self.check_at(key, now);
        assert(is_check_at(old(self)@, self@, key@, now, result));
        result
    }
}

/// A standalone bucket as contracts see it.
///
/// The bucket refills `refill_tokens` tokens every `refill_period`
/// nanoseconds, so it earns `refill_tokens` credit units per nanosecond
/// and a token costs `refill_period` units.
pub struct BucketView {
    /// The most tokens the bucket can hold.
    pub capacity: nat,
    /// Tokens added per refill period.
    pub refill_tokens: nat,
    /// The refill period in nanoseconds.
    pub refill_period: nat,
    /// The balance in credit units.
    pub credit: nat,
    /// The time of the last refill on the bucket's clock.
    pub last_refill: u64,
}

impl BucketView {
    /// The three parameters are positive and the balance is within the
    /// bucket.
    pub open spec fn well_formed(self) -> bool {
        &&& self.capacity > 0
        &&& self.refill_tokens > 0
        &&& self.refill_period > 0
        &&& self.credit <= full_credit(self.capacity, self.refill_period)
    }

    /// The balance once the bucket has been refilled up to `now`.
    pub open spec fn balance_at(self, now: u64) -> nat {
        refilled(
            self.capacity,
            self.refill_tokens,
            self.refill_period,
            self.credit,
            elapsed_between(self.last_refill, now),
        )
    }

    /// The bucket with the given balance, refilled at `now`.
    pub open spec fn at(self, credit: nat, now: u64) -> BucketView {
        BucketView {
            capacity: self.capacity,
            refill_tokens: self.refill_tokens,
            refill_period: self.refill_period,
            credit,
            last_refill: now,
        }
    }

    /// The bucket after a refill up to `now`.
    pub open spec fn refilled_at(self, now: u64) -> BucketView {
        self.at(self.balance_at(now), now)
    }

    /// Whether a request at `now` gets a token.
    pub open spec fn acquires_at(self, now: u64) -> bool {
        self.balance_at(now) >= self.refill_period
    }

    /// The bucket after a request at `now`: refilled, and one token
    /// poorer if it had one.
    pub open spec fn after_acquire_at(self, now: u64) -> BucketView {
        if self.acquires_at(now) {
            self.at((self.balance_at(now) - self.refill_period) as nat, now)
        } else {
            self.refilled_at(now)
        }
    }

    /// The whole tokens in the bucket.
    pub open spec fn tokens(self) -> nat {
        whole_tokens(self.refill_period, self.credit)
    }

    /// The nanoseconds until the bucket holds a whole token.
    pub open spec fn wait(self) -> nat {
        wait_nanos(self.refill_tokens, self.refill_period, self.credit)
    }
}

/// What is wrong with the parameters of a standalone bucket that are not
/// all positive: the capacity is named first.
pub open spec fn bucket_complaint(capacity: u32) -> Seq<char> {
    if capacity == 0 {
        "capacity must be positive"@
    } else {
        "refill rate must be positive"@
    }
}

/// A single token bucket with a clock of its own, for throttling one
/// shared resource.
pub struct TokenBucket {
    capacity: u32,
    refill_tokens: u32,
    refill_period_nanos: u64,
    credit: u128,
    last_refill: u64,
    clock: MonotonicClock,
}

impl View for TokenBucket {
    type V = BucketView;

    closed spec fn view(&self) -> BucketView {
        BucketView {
            capacity: self.capacity as nat,
            refill_tokens: self.refill_tokens as nat,
            refill_period: self.refill_period_nanos as nat,
            credit: self.credit as nat,
            last_refill: self.last_refill,
        }
    }
}

impl TokenBucket {
    #[verifier::type_invariant]
    spec fn holds(&self) -> bool {
        self@.well_formed()
    }

    /// A full bucket of `capacity` tokens that refills `refill_tokens`
    /// tokens every `refill_period_nanos` nanoseconds, counted from now,
    /// which is the origin of the bucket's own clock. A zero in any of
    /// the three is a configuration error.
    pub fn new(capacity: u32, refill_tokens: u32, refill_period_nanos: u64) -> (made: Result<
        Self,
        RateLimitError,
    >)
        ensures
            made is Ok <==> capacity > 0 && refill_tokens > 0 && refill_period_nanos > 0,
            made matches Ok(bucket) ==> bucket@ == (BucketView {
                capacity: capacity as nat,
                refill_tokens: refill_tokens as nat,
                refill_period: refill_period_nanos as nat,
                credit: full_credit(capacity as nat, refill_period_nanos as nat),
                last_refill: CLOCK_ORIGIN,
            }),
            made matches Err(error) ==> error matches RateLimitError::ConfigError(cause)
                && cause@ == bucket_complaint(capacity),
    {
        if capacity == 0 {
            Err(RateLimitError::ConfigError(String::from_str("capacity must be positive")))
        } else if refill_tokens == 0 || refill_period_nanos == 0 {
            Err(RateLimitError::ConfigError(String::from_str("refill rate must be positive")))
        } else {
            proof {
                lemma_product_bound(capacity as nat, refill_period_nanos as nat);
            }
            Ok(
                TokenBucket {
                    capacity,
                    refill_tokens,
                    refill_period_nanos,
                    credit: (capacity as u128) * (refill_period_nanos as u128),
                    last_refill: CLOCK_ORIGIN,
                    clock: MonotonicClock::new(),
                },
            )
        }
    }

    /// Adds what was earned since the last refill, up to the capacity.
    fn refill(&mut self, now: u64)
        ensures
            final(self)@ == old(self)@.refilled_at(now),
            final(self)@.well_formed(),
    {
        proof {
            use_type_invariant(&*self);
        }
        let elapsed = elapsed_since(self.last_refill, now);
        let balance = refill(
            self.capacity,
            self.refill_tokens,
            self.refill_period_nanos,
            self.credit,
            elapsed,
        );
        self.credit = balance;
        self.last_refill = now;
    }

    /// Takes a token at the time `now` on the bucket's clock, if the
    /// refilled bucket holds one. The balance stays within the bucket.
    pub fn try_acquire_at(&mut self, now: u64) -> (acquired: bool)
        ensures
            acquired == old(self)@.acquires_at(now),
            final(self)@ == old(self)@.after_acquire_at(now),
            final(self)@.well_formed(),
    {
        self.refill(now);
        if self.credit >= self.refill_period_nanos as u128 {
            self.credit = self.credit - self.refill_period_nanos as u128;
            true
        } else {
            false
        }
    }

    /// Takes a token now, if the refilled bucket holds one.
    pub fn try_acquire(&mut self) -> (acquired: bool)
        ensures
            exists|now: u64|
                now >= CLOCK_ORIGIN && acquired == #[trigger] old(self)@.acquires_at(now)
                    && final(self)@ == old(self)@.after_acquire_at(now),
            final(self)@.well_formed(),
    {
        let now = self.clock.now();
        let acquired = self.try_acquire_at(now);
        assert(acquired == old(self)@.acquires_at(now));
        acquired
    }

    /// Refills the bucket up to `now` and counts its whole tokens.
    pub fn remaining_at(&mut self, now: u64) -> (tokens: u32)
        ensures
            final(self)@ == old(self)@.refilled_at(now),
            tokens == final(self)@.tokens(),
            tokens <= final(self)@.capacity,
    {
        self.refill(now);
        tokens_in(self.capacity, self.refill_period_nanos, self.credit)
    }

    /// Refills the bucket and counts its whole tokens.
    pub fn remaining(&mut self) -> (tokens: u32)
        ensures
            exists|now: u64|
                now >= CLOCK_ORIGIN && final(self)@ == #[trigger] old(self)@.refilled_at(now),
            tokens == final(self)@.tokens(),
            tokens <= final(self)@.capacity,
    {
        let now = self.clock.now();
        let tokens = self.remaining_at(now);
        assert(self@ == old(self)@.refilled_at(now));
        tokens
    }

    /// The nanoseconds until the bucket, as it was last refilled, holds a
    /// whole token; zero if it does.
    pub fn retry_after(&self) -> (wait: u64)
        ensures
            wait == self@.wait(),
    {
        proof {
            use_type_invariant(self);
        }
        wait_for_token(self.refill_tokens, self.refill_period_nanos, self.credit)
    }
}

} // verus!
