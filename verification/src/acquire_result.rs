//! The answer to a request.

use crate::clock::duration_total_nanos;
use std::time::Duration;
use vstd::prelude::*;

verus! {

/// Result of a rate limit acquisition attempt.
#[derive(Debug, Clone, Copy, PartialEq, Eq)]
pub struct AcquireResult {
    /// Whether the request was allowed.
    pub allowed: bool,
    /// Estimated time to wait before the next request can be made (if denied).
    pub retry_after: Option<Duration>,
}

impl View for AcquireResult {
    /// Whether the request was allowed, and the wait in nanoseconds, if any.
    type V = (bool, Option<u128>);

    open spec fn view(&self) -> (bool, Option<u128>) {
        (
            self.allowed,
            match self.retry_after {
                Some(d) => Some(duration_total_nanos(d)),
                None => None,
            },
        )
    }
}

impl AcquireResult {
    /// Creates a new allowed result.
    pub fn allowed() -> (r: Self)
        ensures
            r.allowed,
            r.retry_after.is_none(),
    {
        AcquireResult { allowed: true, retry_after: None }
    }

    /// Creates a new denied result with optional retry time.
    pub fn denied(retry_after: Option<Duration>) -> (r: Self)
        ensures
            !r.allowed,
            r.retry_after == retry_after,
    {
        AcquireResult { allowed: false, retry_after }
    }

    /// Returns `true` if the request was allowed.
    pub fn is_allowed(self) -> (b: bool)
        ensures
            b == self.allowed,
    {
        self.allowed
    }

    /// Returns `true` if the request was denied.
    pub fn is_denied(self) -> (b: bool)
        ensures
            b == !self.allowed,
    {
        !self.allowed
    }
}

} // verus!
