//! Retry policy.
//!
//! Convention: an operation is retried only when it fails with
//! [`EsiftError::Transient`](crate::error::EsiftError::Transient).

use vstd::prelude::*;

verus! {

/// Retry policy. Defaults to no retries so behavior is opt-in.
#[derive(Debug, Clone, Copy, PartialEq, Eq, Structural)]
pub struct RetryPolicy {
    /// Maximum retries after the first attempt. 0 disables retries.
    pub max_retries: u32,
    /// Initial backoff before the first retry.
    pub base_backoff_ms: u64,
    /// Ceiling for exponential backoff.
    pub max_backoff_ms: u64,
}

impl Default for RetryPolicy {
    fn default() -> (r: RetryPolicy)
        ensures
            r.max_retries == 0,
            r.base_backoff_ms == 200,
            r.max_backoff_ms == 5000,
    {
        RetryPolicy {
            max_retries: 0,
            base_backoff_ms: default_base_backoff_ms(),
            max_backoff_ms: default_max_backoff_ms(),
        }
    }
}

/// The backoff before the first retry, where none is configured.
pub fn default_base_backoff_ms() -> (r: u64)
    ensures
        r == 200,
{
    200
}

/// The ceiling for the backoff, where none is configured.
pub fn default_max_backoff_ms() -> (r: u64)
    ensures
        r == 5000,
{
    5000
}

} // verus!
