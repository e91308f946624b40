//! Errors that construction and locking can report.

use vstd::prelude::*;
use vstd::string::*;

verus! {

/// What can go wrong outside the check path. Each variant carries a
/// description of the cause.
#[derive(Debug)]
pub enum RateLimitError {
    /// The external store could not be reached or refused an operation.
    RedisError(String),
    /// The lock around a shared bucket was poisoned.
    StorageLock(String),
    /// A quota, a window or a refill rate is not positive.
    ConfigError(String),
}

impl RateLimitError {
    /// The characters of the error's message: what kind of error it is,
    /// then the description of the cause.
    pub open spec fn text(&self) -> Seq<char> {
        match self {
            RateLimitError::RedisError(cause) => "Redis connection error: "@ + cause@,
            RateLimitError::StorageLock(cause) => "Storage lock failed: "@ + cause@,
            RateLimitError::ConfigError(cause) => "Invaild configuration: "@ + cause@,
        }
    }

    /// The error's message.
    pub fn message(&self) -> (message: String)
        ensures
            message@ == self.text(),
    {
        match self {
            RateLimitError::RedisError(cause) => {
                let mut message = String::from_str("Redis connection error: ");
                message.append(cause.as_str());
                message
            },
            RateLimitError::StorageLock(cause) => {
                let mut message = String::from_str("Storage lock failed: ");
                message.append(cause.as_str());
                message
            },
            RateLimitError::ConfigError(cause) => {
                let mut message = String::from_str("Invaild configuration: ");
                message.append(cause.as_str());
                message
            },
        }
    }
}

} // verus!
