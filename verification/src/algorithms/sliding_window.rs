//! The sliding-window counter: admission against a blend of the current
//! window's count and the previous window's count, the latter weighted by
//! how much of the current window is still ahead.

use super::LimiterView;
use crate::clock::{elapsed_between, elapsed_since, MonotonicClock, CLOCK_ORIGIN};
use crate::credit::lemma_product_bound;
use crate::error::RateLimitError;
use crate::storage::{stored, RateLimitStorage, WindowState};
use crate::{RateLimitConfig, RateLimitResult, RateLimiter, ValidConfig};
use vstd::prelude::*;

verus! {

/// The state of a key that has never been seen: an empty window that
/// starts now.
pub open spec fn fresh_window(now: u64) -> WindowState {
    WindowState { prev_count: 0, curr_count: 0, window_start: now }
}

/// The state after the window bookkeeping of a check at `now`.
///
/// Once two whole windows have passed both counts are stale and are
/// dropped; once one has passed the current count becomes the previous
/// one. In both cases the new window starts at `now`. Otherwise nothing
/// changes.
pub open spec fn rolled(window: u64, state: WindowState, now: u64) -> WindowState {
    let elapsed = elapsed_between(state.window_start, now);
    if elapsed >= 2 * window {
        WindowState { prev_count: 0, curr_count: 0, window_start: now }
    } else if elapsed >= window {
        WindowState { prev_count: state.curr_count, curr_count: 0, window_start: now }
    } else {
        state
    }
}

/// The part of the window that is still ahead at `now`, in nanoseconds:
/// the weight of the previous count, times the window.
pub open spec fn time_ahead(window: u64, state: WindowState, now: u64) -> nat {
    let elapsed = elapsed_between(state.window_start, now);
    if elapsed < window {
        (window - elapsed) as nat
    } else {
        0
    }
}

/// The effective count of a state at `now`, times the window:
/// `prev_count * weight + curr_count` with `weight = 1 - elapsed / window`.
pub open spec fn weighted_load(window: u64, state: WindowState, now: u64) -> nat {
    (state.prev_count * time_ahead(window, state, now) + state.curr_count * window) as nat
}

/// Whether a state admits one more request: its effective count is
/// strictly below the quota.
pub open spec fn admits(config: RateLimitConfig, state: WindowState, now: u64) -> bool {
    weighted_load(config.window_nanos, state, now) < config.max_request * config.window_nanos
}

/// The quota left after admitting a request into a state:
/// `max(0, floor(max_request - effective_count - 1))`.
pub open spec fn headroom(config: RateLimitConfig, state: WindowState, now: u64) -> nat {
    let spare = config.max_request * config.window_nanos - weighted_load(
        config.window_nanos,
        state,
        now,
    );
    if spare >= config.window_nanos {
        ((spare - config.window_nanos) / (config.window_nanos as int)) as nat
    } else {
        0
    }
}

/// How long a denied request is told to wait: a tenth of the window.
pub open spec fn denial_wait(window: u64) -> nat {
    (window / 10) as nat
}

/// One check at `now` against the state that was loaded: the state to
/// store and the outcome to report.
pub open spec fn window_step(config: RateLimitConfig, prior: Option<WindowState>, now: u64) -> (
    WindowState,
    RateLimitResult,
) {
    let loaded = match prior {
        Some(state) => state,
        None => fresh_window(now),
    };
    let current = rolled(config.window_nanos, loaded, now);
    if admits(config, current, now) {
        (
            WindowState {
                prev_count: current.prev_count,
                curr_count: (current.curr_count + 1) as u32,
                window_start: current.window_start,
            },
            RateLimitResult {
                allowed: true,
                remaining: headroom(config, current, now) as u32,
                retry_after_nanos: 0,
            },
        )
    } else {
        (
            current,
            RateLimitResult {
                allowed: false,
                remaining: 0,
                retry_after_nanos: denial_wait(config.window_nanos) as u64,
            },
        )
    }
}

/// Computes [`rolled`].
pub fn roll(window: u64, state: WindowState, now: u64) -> (current: WindowState)
    ensures
        current == rolled(window, state, now),
        window > 0 ==> elapsed_between(current.window_start, now) < window,
        window > 0 ==> current.window_start >= state.window_start,
{
    let elapsed = elapsed_since(state.window_start, now);
    if elapsed >= window {
        // elapsed / window >= 2 exactly when elapsed - window >= window
        if elapsed - window >= window {
            WindowState { prev_count: 0, curr_count: 0, window_start: now }
        } else {
            WindowState { prev_count: state.curr_count, curr_count: 0, window_start: now }
        }
    } else {
        state
    }
}

/// An admitted request always fits in the current count, and the quota
/// left after it is below the quota.
pub proof fn lemma_admission_bounds(config: RateLimitConfig, state: WindowState, now: u64)
    requires
        config.is_valid(),
        admits(config, state, now),
    ensures
        state.curr_count < config.max_request,
        headroom(config, state, now) < config.max_request,
{
    let w = config.window_nanos as int;
    let m = config.max_request as int;
    let c = state.curr_count as int;
    let p = state.prev_count as int;
    let a = time_ahead(config.window_nanos, state, now) as int;
    let load = weighted_load(config.window_nanos, state, now) as int;
    assert(load == p * a + c * w);
    assert(p * a >= 0) by (nonlinear_arith)
        requires
            p >= 0,
            a >= 0,
    ;
    assert(c < m) by (nonlinear_arith)
        requires
            c * w < m * w,
            w > 0,
    ;
    let spare = m * w - load;
    if spare >= w {
        assert((spare - w) / w < m) by (nonlinear_arith)
            requires
                w > 0,
                m > 0,
                0 <= spare - w < m * w,
        ;
    }
}

/// One check of the sliding-window counter at `now`.
///
/// `prior` is what storage held for the key. The first part of the answer
/// is the state to store, the second the outcome to report.
pub fn decide(config: &RateLimitConfig, prior: Option<WindowState>, now: u64) -> (step: (
    WindowState,
    RateLimitResult,
))
    requires
        config.is_valid(),
    ensures
        step == window_step(*config, prior, now),
        step.1.consistent(),
{
    let window = config.window_nanos;
    let loaded = match prior {
        Some(state) => state,
        None => WindowState { prev_count: 0, curr_count: 0, window_start: now },
    };
    let current = roll(window, loaded, now);
    let elapsed = elapsed_since(current.window_start, now);
    let ahead: u64 = window - elapsed;
    proof {
        lemma_product_bound(current.prev_count as nat, ahead as nat);
        lemma_product_bound(current.curr_count as nat, window as nat);
        lemma_product_bound(config.max_request as nat, window as nat);
    }
    let load: u128 = (current.prev_count as u128) * (ahead as u128) + (current.curr_count as u128)
        * (window as u128);
    let limit: u128 = (config.max_request as u128) * (window as u128);
    assert(load == weighted_load(window, current, now));
    if load < limit {
        proof {
            lemma_admission_bounds(*config, current, now);
        }
        let spare: u128 = limit - load;
        let remaining: u32 = if spare >= window as u128 {
            ((spare - window as u128) / (window as u128)) as u32
        } else {
            0
        };
        (
            WindowState {
                prev_count: current.prev_count,
                curr_count: current.curr_count + 1,
                window_start: current.window_start,
            },
            RateLimitResult { allowed: true, remaining, retry_after_nanos: 0 },
        )
    } else {
        (current, RateLimitResult { allowed: false, remaining: 0, retry_after_nanos: window / 10 })
    }
}

/// The state stored for a key after checks at the given times, in order,
/// starting from what storage held.
pub open spec fn window_after(config: RateLimitConfig, prior: Option<WindowState>, times: Seq<u64>)
    -> Option<WindowState>
    decreases times.len(),
{
    if times.len() == 0 {
        prior
    } else {
        Some(window_step(config, window_after(config, prior, times.drop_last()), times.last()).0)
    }
}

/// The check that follows `count` immediate checks of a fresh window,
/// given the state those checks left.
proof fn lemma_burst_step(config: RateLimitConfig, now: u64, count: nat)
    requires
        config.is_valid(),
        count <= config.max_request,
    ensures
        ({
            let before = if count == 0 {
                None
            } else {
                Some(WindowState { prev_count: 0, curr_count: count as u32, window_start: now })
            };
            let step = window_step(config, before, now);
            &&& count < config.max_request ==> step.1 == (RateLimitResult {
                allowed: true,
                remaining: (config.max_request - count - 1) as u32,
                retry_after_nanos: 0,
            }) && step.0 == (WindowState {
                prev_count: 0,
                curr_count: (count + 1) as u32,
                window_start: now,
            })
            &&& count == config.max_request ==> step.1 == (RateLimitResult {
                allowed: false,
                remaining: 0,
                retry_after_nanos: (config.window_nanos / 10) as u64,
            })
        }),
{
    let max = config.max_request as int;
    let window = config.window_nanos as int;
    let used = count as int;
    let state = WindowState { prev_count: 0, curr_count: count as u32, window_start: now };
    assert(weighted_load(config.window_nanos, state, now) == used * window);
    if used < max {
        assert(used * window < max * window && max * window - used * window - window == (max
            - used - 1) * window && ((max - used - 1) * window) / window == max - used - 1
            && max * window - used * window >= window) by (nonlinear_arith)
            requires
                0 <= used < max,
                window > 0,
        ;
    }
}

/// After `count` immediate checks of a fresh window, the current count is
/// `count` and nothing else has changed.
proof fn lemma_burst_state(config: RateLimitConfig, now: u64, count: nat)
    requires
        config.is_valid(),
        count <= config.max_request,
    ensures
        window_after(config, None, Seq::new(count, |i: int| now)) == if count == 0 {
            None
        } else {
            Some(WindowState { prev_count: 0, curr_count: count as u32, window_start: now })
        },
    decreases count,
{
    let times = Seq::new(count, |i: int| now);
    if count > 0 {
        let earlier = (count - 1) as nat;
        lemma_burst_state(config, now, earlier);
        assert(times.drop_last() =~= Seq::new(earlier, |i: int| now));
        lemma_burst_step(config, now, earlier);
    }
}

/// A fresh window admits exactly `max_request` immediate checks. The
/// check after `count` earlier ones is admitted and reports
/// `max_request - count - 1` remaining while `count < max_request`; the
/// one after `max_request` is denied, reports nothing remaining and asks
/// for a tenth of the window.
pub proof fn lemma_fresh_window_quota(config: RateLimitConfig, now: u64, count: nat)
    requires
        config.is_valid(),
        count <= config.max_request,
    ensures
        ({
            let before = window_after(config, None, Seq::new(count, |i: int| now));
            let result = window_step(config, before, now).1;
            &&& count < config.max_request ==> result.allowed && result.remaining
                == config.max_request - count - 1 && result.retry_after_nanos == 0
            &&& count == config.max_request ==> !result.allowed && result.remaining == 0
                && result.retry_after_nanos == config.window_nanos / 10
        }),
{
    lemma_burst_state(config, now, count);
    lemma_burst_step(config, now, count);
}

/// Sliding: a check that comes at least one but less than two windows
/// after the window began makes the current count the previous one and
/// starts a new window at the time of the check. The previous count then
/// weighs in full, so the check is admitted exactly when that count is
/// below the quota, and the new window counts that one request.
pub proof fn lemma_one_window_slides(config: RateLimitConfig, state: WindowState, now: u64)
    requires
        config.is_valid(),
        config.window_nanos <= elapsed_between(state.window_start, now) < 2 * config.window_nanos,
    ensures
        ({
            let step = window_step(config, Some(state), now);
            &&& step.0.prev_count == state.curr_count
            &&& step.0.window_start == now
            &&& step.1.allowed <==> state.curr_count < config.max_request
            &&& step.0.curr_count == if step.1.allowed {
                1u32
            } else {
                0u32
            }
        }),
{
    let window = config.window_nanos as int;
    let max = config.max_request as int;
    let inherited = state.curr_count as int;
    let current = rolled(config.window_nanos, state, now);
    assert(current == WindowState {
        prev_count: state.curr_count,
        curr_count: 0,
        window_start: now,
    });
    assert(time_ahead(config.window_nanos, current, now) == window);
    assert(weighted_load(config.window_nanos, current, now) == inherited * window);
    assert(inherited * window < max * window <==> inherited < max) by (nonlinear_arith)
        requires
            window > 0,
    ;
}

/// Decay: once any time has passed in a window that has admitted nothing
/// yet, a previous count within the quota no longer weighs in full, so
/// the check is admitted.
pub proof fn lemma_decayed_load_admits(config: RateLimitConfig, state: WindowState, now: u64)
    requires
        config.is_valid(),
        state.curr_count == 0,
        state.prev_count <= config.max_request,
        0 < elapsed_between(state.window_start, now) < config.window_nanos,
    ensures
        window_step(config, Some(state), now).1.allowed,
        window_step(config, Some(state), now).0 == (WindowState {
            prev_count: state.prev_count,
            curr_count: 1,
            window_start: state.window_start,
        }),
{
    let window = config.window_nanos as int;
    let max = config.max_request as int;
    let before = state.prev_count as int;
    let ahead = time_ahead(config.window_nanos, state, now) as int;
    assert(weighted_load(config.window_nanos, state, now) == before * ahead);
    assert(before * ahead < max * window) by (nonlinear_arith)
        requires
            0 <= before <= max,
            0 < ahead < window,
            max > 0,
    ;
}

/// Double expiry: a check that comes two or more windows after the
/// window began drops both counts, whatever they were, so it is
/// admitted into an empty window that starts at the time of the check.
pub proof fn lemma_two_windows_reset(config: RateLimitConfig, state: WindowState, now: u64)
    requires
        config.is_valid(),
        elapsed_between(state.window_start, now) >= 2 * config.window_nanos,
    ensures
        rolled(config.window_nanos, state, now) == fresh_window(now),
        window_step(config, Some(state), now).0 == (WindowState {
            prev_count: 0,
            curr_count: 1,
            window_start: now,
        }),
        window_step(config, Some(state), now).1 == (RateLimitResult {
            allowed: true,
            remaining: (config.max_request - 1) as u32,
            retry_after_nanos: 0,
        }),
{
    lemma_burst_step(config, now, 0);
    assert(window_step(config, Some(state), now) == window_step(config, None, now));
}

/// The start of the window never moves backward, and it moves (to the
/// time of the check) only when at least one whole window has passed.
pub proof fn lemma_window_only_advances(config: RateLimitConfig, state: WindowState, now: u64)
    requires
        config.is_valid(),
    ensures
        ({
            let after = window_step(config, Some(state), now).0;
            &&& after.window_start >= state.window_start
            &&& after.window_start != state.window_start ==> after.window_start == now
                && elapsed_between(state.window_start, now) >= config.window_nanos
        }),
{
}

/// Idempotent defaults: a key that was never seen is checked exactly as a
/// key whose state was reset to an empty window at the time of the check.
pub proof fn lemma_unseen_is_fresh(config: RateLimitConfig, now: u64)
    requires
        config.is_valid(),
    ensures
        window_step(config, None, now) == window_step(config, Some(fresh_window(now)), now),
{
}

/// One check of a limiter over a dependable backend: the limiter afterwards
/// and the outcome. The state under the key is loaded, stepped and stored
/// back, whether the request was admitted or not.
pub open spec fn window_check(view: LimiterView<WindowState>, key: Seq<char>, now: u64) -> (
    LimiterView<WindowState>,
    RateLimitResult,
) {
    let step = window_step(view.config, stored(view.entries, key), now);
    (view.with_state(key, step.0), step.1)
}

/// Idempotent defaults for a limiter: checking a key that the backend
/// does not hold gives the same outcome, and leaves the same limiter, as
/// checking it after an empty window was stored for it.
pub proof fn lemma_unseen_key_is_fresh(view: LimiterView<WindowState>, key: Seq<char>, now: u64)
    requires
        view.config.is_valid(),
        !view.entries.contains_key(key),
    ensures
        window_check(view, key, now) == window_check(view.with_state(key, fresh_window(now)), key, now),
{
    let reset = view.with_state(key, fresh_window(now));
    let plain = window_check(view, key, now);
    let again = window_check(reset, key, now);
    assert(plain.0.entries =~= again.0.entries);
}

/// The limiter after checks of `key` at the given times, in order, over
/// a dependable backend.
pub open spec fn window_checks(view: LimiterView<WindowState>, key: Seq<char>, times: Seq<u64>)
    -> LimiterView<WindowState>
    decreases times.len(),
{
    if times.len() == 0 {
        view
    } else {
        window_check(window_checks(view, key, times.drop_last()), key, times.last()).0
    }
}

/// Checks of one key go by the state of that key alone: they take it
/// through the states that `window_after` names, and leave the policy and
/// every other key as they were.
pub proof fn lemma_checks_follow_the_key(
    view: LimiterView<WindowState>,
    key: Seq<char>,
    times: Seq<u64>,
)
    ensures
        window_checks(view, key, times).config == view.config,
        window_checks(view, key, times).dependable == view.dependable,
        stored(window_checks(view, key, times).entries, key) == window_after(
            view.config,
            stored(view.entries, key),
            times,
        ),
        forall|other: Seq<char>|
            other != key ==> #[trigger] stored(window_checks(view, key, times).entries, other)
                == stored(view.entries, other),
    decreases times.len(),
{
    if times.len() > 0 {
        let earlier = window_checks(view, key, times.drop_last());
        lemma_checks_follow_the_key(view, key, times.drop_last());
        assert forall|other: Seq<char>| other != key implies #[trigger] stored(
            window_checks(view, key, times).entries,
            other,
        ) == stored(view.entries, other) by {
            assert(stored(earlier.entries, other) == stored(view.entries, other));
        }
    }
}

/// The quota of a limiter: on a key that the backend does not hold, the
/// check after `count` immediate checks is admitted and reports
/// `max_request - count - 1` remaining while `count < max_request`, and
/// the one after `max_request` is denied and reports nothing remaining.
pub proof fn lemma_limiter_fresh_window_quota(
    view: LimiterView<WindowState>,
    key: Seq<char>,
    now: u64,
    count: nat,
)
    requires
        view.config.is_valid(),
        !view.entries.contains_key(key),
        count <= view.config.max_request,
    ensures
        ({
            let before = window_checks(view, key, Seq::new(count, |i: int| now));
            let result = window_check(before, key, now).1;
            &&& count < view.config.max_request ==> result.allowed && result.remaining
                == view.config.max_request - count - 1 && result.retry_after_nanos == 0
            &&& count == view.config.max_request ==> !result.allowed && result.remaining == 0
                && result.retry_after_nanos == view.config.window_nanos / 10
        }),
{
    lemma_checks_follow_the_key(view, key, Seq::new(count, |i: int| now));
    lemma_fresh_window_quota(view.config, now, count);
}

/// What holds of a check at `now` that took a limiter from `before` to
/// `after` and reported `result`.
///
/// Whatever the backend answered, the outcome is the sliding window's
/// decision on some prior state and the policy is unchanged. Over a
/// dependable backend the prior state is the stored one and the new state
/// is stored back.
pub open spec fn is_check_at(
    before: LimiterView<WindowState>,
    after: LimiterView<WindowState>,
    key: Seq<char>,
    now: u64,
    result: RateLimitResult,
) -> bool {
    &&& after.config == before.config
    &&& exists|prior: Option<WindowState>|
        result == #[trigger] window_step(before.config, prior, now).1
    &&& before.dependable ==> (after, result) == window_check(before, key, now)
}

/// The keyed sliding-window limiter over a storage backend.
pub struct SlidingWindowLimiter<S: RateLimitStorage<WindowState>> {
    storage: S,
    config: ValidConfig,
    clock: MonotonicClock,
}

impl<S: RateLimitStorage<WindowState>> View for SlidingWindowLimiter<S> {
    type V = LimiterView<WindowState>;

    closed spec fn view(&self) -> LimiterView<WindowState> {
        LimiterView {
            config: self.config@,
            entries: self.storage.entries(),
            dependable: self.storage.dependable(),
        }
    }
}

impl<S: RateLimitStorage<WindowState>> SlidingWindowLimiter<S> {
    /// A limiter with a clock of its own. An unusable policy is rejected
    /// here, so that no check ever divides by zero.
    pub fn new(config: RateLimitConfig, storage: S) -> (made: Result<Self, RateLimitError>)
        ensures
            made is Ok <==> config.is_valid(),
            made matches Ok(limiter) ==> limiter@.config == config && limiter@.entries
                == storage.entries() && limiter@.dependable == storage.dependable(),
            made matches Err(error) ==> error matches RateLimitError::ConfigError(cause)
                && cause@ == config.complaint(),
    {
        Self::with_clock(config, storage, MonotonicClock::new())
    }

    /// A limiter that reads the given clock, for backends that convert
    /// the limiter's timestamps and so must read the same clock.
    pub fn with_clock(config: RateLimitConfig, storage: S, clock: MonotonicClock) -> (made: Result<
        Self,
        RateLimitError,
    >)
        ensures
            made is Ok <==> config.is_valid(),
            made matches Ok(limiter) ==> limiter@.config == config && limiter@.entries
                == storage.entries() && limiter@.dependable == storage.dependable(),
            made matches Err(error) ==> error matches RateLimitError::ConfigError(cause)
                && cause@ == config.complaint(),
    {
        match ValidConfig::new(config) {
            Ok(config) => Ok(SlidingWindowLimiter { storage, config, clock }),
            Err(error) => Err(error),
        }
    }

    /// The policy the limiter was built with.
    pub fn config(&self) -> (config: RateLimitConfig)
        ensures
            config == self@.config,
            config.is_valid(),
    {
        self.config.get()
    }

    /// Loads the window of `key` (an empty one if there is none), rolls it
    /// forward to `now`, decides, and stores the window back.
    fn check_and_update(&mut self, key: &str, now: u64) -> (outcome: (bool, u32, u64))
        ensures
            is_check_at(
                old(self)@,
                final(self)@,
                key@,
                now,
                RateLimitResult {
                    allowed: outcome.0,
                    remaining: outcome.1,
                    retry_after_nanos: outcome.2,
                },
            ),
            outcome.0 ==> outcome.2 == 0,
            !outcome.0 ==> outcome.1 == 0,
    {
        let config = self.config.get();
        let prior = self.storage.get(key);
        let (state, result) = decide(&config, prior, now);
        self.storage.set(key, state);
        assert(result == window_step(old(self)@.config, prior, now).1);
        (result.allowed, result.remaining, result.retry_after_nanos)
    }

    /// One check for `key` at the monotonic time `now`.
    pub fn check_at(&mut self, key: &str, now: u64) -> (result: RateLimitResult)
        ensures
            result.consistent(),
            is_check_at(old(self)@, final(self)@, key@, now, result),
    {
        let (allowed, remaining, retry_after_nanos) = self.check_and_update(key, now);
        RateLimitResult { allowed, remaining, retry_after_nanos }
    }
}

impl<S: RateLimitStorage<WindowState>> RateLimiter for SlidingWindowLimiter<S> {
    /// One check for `key` at the time the limiter's clock shows.
    fn check(&mut self, key: &str) -> (result: RateLimitResult)
        ensures
            exists|now: u64|
                now >= CLOCK_ORIGIN && is_check_at(old(self)@, final(self)@, key@, now, result),
    {
        let now = self.clock.now();
        let result = self.check_at(key, now);
        assert(is_check_at(old(self)@, self@, key@, now, result));
        result
    }
}

} // verus!
