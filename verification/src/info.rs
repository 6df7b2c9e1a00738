//! What hooks are told.

use std::time::Duration;
use vstd::prelude::*;

verus! {

/// Metadata passed to the `before_attempt` and `before_all` hooks.
///
/// In `before_all`, `attempt` is always 1 (about to start the first attempt).
#[derive(Debug)]
pub struct BeforeAttemptInfo {
    /// Current attempt number, 1-based. Always 1 in `before_all`.
    pub attempt: u32,
    /// The delay that will be slept if this attempt fails with a transient
    /// error. `None` on the last attempt.
    pub next_delay: Option<Duration>,
    /// Wall-clock time since the retry loop started.
    pub total_elapsed: Duration,
}

impl Clone for BeforeAttemptInfo {
    fn clone(&self) -> (copy: Self)
        ensures
            copy == *self,
    {
        BeforeAttemptInfo {
            attempt: self.attempt,
            next_delay: self.next_delay,
            total_elapsed: self.total_elapsed,
        }
    }
}

/// Metadata passed to the `after_attempt` and `after_all` hooks.
///
/// In `after_all`, `attempt` is the total number of attempts made and
/// `next_delay` is always `None`.
#[derive(Debug)]
pub struct AfterAttemptInfo {
    /// Current attempt number, 1-based. In `after_all`, equals total attempts made.
    pub attempt: u32,
    /// Whether this attempt (or the overall retry loop, in `after_all`) succeeded.
    pub success: bool,
    /// The delay about to be slept before the next attempt. `None` when the
    /// attempt succeeded, hit a permanent error, or retries are exhausted.
    /// Always `None` in `after_all`.
    pub next_delay: Option<Duration>,
    /// Wall-clock time since the retry loop started.
    pub total_elapsed: Duration,
}

impl Clone for AfterAttemptInfo {
    fn clone(&self) -> (copy: Self)
        ensures
            copy == *self,
    {
        AfterAttemptInfo {
            attempt: self.attempt,
            success: self.success,
            next_delay: self.next_delay,
            total_elapsed: self.total_elapsed,
        }
    }
}

} // verus!
