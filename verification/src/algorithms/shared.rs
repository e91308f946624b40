//! A token bucket behind a lock, for callers on several threads.

use super::token_bucket::{bucket_complaint, BucketView, TokenBucket};
use crate::error::RateLimitError;
use std::sync::Arc;
use std::sync::Mutex;
use std::sync::MutexGuard;
use vstd::prelude::*;
use vstd::string::*;

verus! {

/// `std::sync::Mutex`, a lock around a value. Nothing inside it is visible
/// here.
#[verifier::external_type_specification]
#[verifier::external_body]
#[verifier::reject_recursive_types(T)]
pub struct ExMutex<T: ?Sized>(Mutex<T>);

/// `std::sync::MutexGuard`, a held lock. Nothing inside it is visible here.
#[verifier::external_type_specification]
#[verifier::external_body]
#[verifier::reject_recursive_types(T)]
pub struct ExMutexGuard<'a, T: ?Sized + 'a>(MutexGuard<'a, T>);

/// `Mutex::new` puts a value behind a lock. A lock is opaque here, so
/// nothing is stated of it.
pub assume_specification<T>[ Mutex::<T>::new ](value: T) -> Mutex<T>
;

/// `Mutex::lock` waits for the lock and hands it out, or hands out nothing
/// when a thread panicked while holding it; which of the two happens is
/// not promised. The calling thread must not hold the lock already.
#[verifier::external_body]
fn lock_bucket<'a>(lock: &'a Mutex<TokenBucket>) -> Option<MutexGuard<'a, TokenBucket>> {
    lock.lock().ok()
}

/// The bucket behind a held lock. While the lock is held nothing else can
/// reach the bucket, so what the guard gives access to is a fact about
/// the guard.
pub uninterp spec fn held_bucket(guard: MutexGuard<'_, TokenBucket>) -> BucketView;

/// `MutexGuard::deref_mut` gives access to the bucket behind a held lock:
/// the reference shows the bucket that the guard holds, and what is
/// written through it is what the guard holds afterwards. Other threads
/// may have used the bucket before the lock was taken, so nothing is
/// promised of which bucket that is.
#[verifier::external_body]
fn locked_bucket<'a, 'b>(guard: &'a mut MutexGuard<'b, TokenBucket>) -> (bucket: &'a mut TokenBucket)
    ensures
        bucket@ == held_bucket(*old(guard)),
        held_bucket(*final(guard)) == final(bucket)@,
{
    &mut **guard
}

/// A token bucket that several threads share. Every operation takes the
/// lock, so requests are served one at a time.
#[derive(Clone)]
pub struct SharedTokenBucket {
    inner: Arc<Mutex<TokenBucket>>,
}

impl SharedTokenBucket {
    /// A full shared bucket; see [`TokenBucket::new`].
    pub fn new(capacity: u32, refill_tokens: u32, refill_period_nanos: u64) -> (made: Result<
        Self,
        RateLimitError,
    >)
        ensures
            made is Ok <==> capacity > 0 && refill_tokens > 0 && refill_period_nanos > 0,
            made matches Err(error) ==> error matches RateLimitError::ConfigError(cause)
                && cause@ == bucket_complaint(capacity),
    {
        match TokenBucket::new(capacity, refill_tokens, refill_period_nanos) {
            Ok(bucket) => Ok(bucket.into_shared()),
            Err(error) => Err(error),
        }
    }

    /// Takes a token now, if the bucket holds one once the lock is held.
    /// A poisoned lock is reported as a storage-lock error, never as
    /// available capacity.
    pub fn try_acquire(&self) -> (acquired: Result<bool, RateLimitError>)
        ensures
            acquired matches Err(error) ==> error matches RateLimitError::StorageLock(cause)
                && cause@ == "token bucket lock is poisoned"@,
    {
        let held = lock_bucket(&self.inner);
        Self::acquire_held(held)
    }
}

impl TokenBucket {
    /// Puts the bucket behind a lock so that threads can share it.
    ///
    /// The bucket keeps its parameters and its balance. From here on it
    /// is reached only through the lock, by whichever handle holds the
    /// lock at the time. Its balance is therefore no longer a fact about
    /// any one handle: a handle can say what a request was told, and
    /// not what the bucket held before or holds after. Cloning the
    /// result gives another handle on the same bucket.
    pub fn into_shared(self) -> SharedTokenBucket {
        SharedTokenBucket { inner: Arc::new(Mutex::new(self)) }
    }
}

impl SharedTokenBucket {
    /// Serves one caller with what the lock handed out. With the lock held
    /// the caller gets the answer of the bucket behind it, refilled up to
    /// now; with a poisoned lock the caller gets a storage-lock error.
    pub fn acquire_held(held: Option<MutexGuard<'_, TokenBucket>>) -> (acquired: Result<
        bool,
        RateLimitError,
    >)
        ensures
            acquired is Ok <==> held is Some,
            held matches Some(guard) ==> exists|now: u64|
                acquired matches Ok(taken) && taken == #[trigger] held_bucket(guard).acquires_at(
                    now,
                ),
            acquired matches Err(error) ==> error matches RateLimitError::StorageLock(cause)
                && cause@ == "token bucket lock is poisoned"@,
    {
        match held {
            Some(mut guard) => {
                let bucket = locked_bucket(&mut guard);
                Ok(bucket.try_acquire())
            },
            None => Err(
                RateLimitError::StorageLock(String::from_str("token bucket lock is poisoned")),
            ),
        }
    }
}

} // verus!
