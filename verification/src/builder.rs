//! The builder: delays, an operation, and the hooks to tell.

use std::time::Duration;
use tokio::time::Instant;
use vstd::prelude::*;

use crate::call::{Call, Stage};
use crate::clock::{are_millis, duration_of_millis, is_now, nanos_of};
use crate::hooks::{Hooks, NoHook};
use crate::info::{AfterAttemptInfo, BeforeAttemptInfo};

verus! {

/// Retry builder. Created by [`retry`], configured with hook methods, and
/// executed by driving what [`Retry::call`] returns.
pub struct Retry<
    F,
    BeforeAll = NoHook,
    AfterAll = NoHook,
    BeforeAttempt = NoHook,
    AfterAttempt = NoHook,
> {
    delays: Vec<Duration>,
    operation: F,
    hooks: Hooks<BeforeAll, AfterAll, BeforeAttempt, AfterAttempt>,
}

/// What a [`Retry`] holds.
pub struct RetryView<F, BeforeAll, AfterAll, BeforeAttempt, AfterAttempt> {
    /// The delays between attempts.
    pub delays: Seq<Duration>,
    /// The operation to attempt.
    pub operation: F,
    /// The hooks to tell.
    pub hooks: Hooks<BeforeAll, AfterAll, BeforeAttempt, AfterAttempt>,
}

impl<F, BeforeAll, AfterAll, BeforeAttempt, AfterAttempt> View for Retry<
    F,
    BeforeAll,
    AfterAll,
    BeforeAttempt,
    AfterAttempt,
> {
    type V = RetryView<F, BeforeAll, AfterAll, BeforeAttempt, AfterAttempt>;

    closed spec fn view(&self) -> Self::V {
        RetryView { delays: self.delays@, operation: self.operation, hooks: self.hooks }
    }
}

impl<F, BeforeAll, AfterAll, BeforeAttempt, AfterAttempt> RetryView<
    F,
    BeforeAll,
    AfterAll,
    BeforeAttempt,
    AfterAttempt,
> {
    /// The same with another `before_all` hook.
    pub open spec fn with_before_all<H>(self, hook: H) -> RetryView<
        F,
        H,
        AfterAll,
        BeforeAttempt,
        AfterAttempt,
    > {
        RetryView {
            delays: self.delays,
            operation: self.operation,
            hooks: Hooks {
                before_all: hook,
                after_all: self.hooks.after_all,
                before_attempt: self.hooks.before_attempt,
                after_attempt: self.hooks.after_attempt,
            },
        }
    }

    /// The same with another `after_all` hook.
    pub open spec fn with_after_all<H>(self, hook: H) -> RetryView<
        F,
        BeforeAll,
        H,
        BeforeAttempt,
        AfterAttempt,
    > {
        RetryView {
            delays: self.delays,
            operation: self.operation,
            hooks: Hooks {
                before_all: self.hooks.before_all,
                after_all: hook,
                before_attempt: self.hooks.before_attempt,
                after_attempt: self.hooks.after_attempt,
            },
        }
    }

    /// The same with another `before_attempt` hook.
    pub open spec fn with_before_attempt<H>(self, hook: H) -> RetryView<
        F,
        BeforeAll,
        AfterAll,
        H,
        AfterAttempt,
    > {
        RetryView {
            delays: self.delays,
            operation: self.operation,
            hooks: Hooks {
                before_all: self.hooks.before_all,
                after_all: self.hooks.after_all,
                before_attempt: hook,
                after_attempt: self.hooks.after_attempt,
            },
        }
    }

    /// The same with another `after_attempt` hook.
    pub open spec fn with_after_attempt<H>(self, hook: H) -> RetryView<
        F,
        BeforeAll,
        AfterAll,
        BeforeAttempt,
        H,
    > {
        RetryView {
            delays: self.delays,
            operation: self.operation,
            hooks: Hooks {
                before_all: self.hooks.before_all,
                after_all: self.hooks.after_all,
                before_attempt: self.hooks.before_attempt,
                after_attempt: hook,
            },
        }
    }
}

/// Create a retry builder.
///
/// `delays` is a slice of millisecond wait times between attempts. The total
/// number of attempts is `delays.len() + 1`: one initial try plus one retry
/// per delay entry. An empty slice means a single attempt with no retries.
pub fn retry<F>(delays: &[u64], operation: F) -> (builder: Retry<F>)
    ensures
        are_millis(builder@.delays, delays@),
        builder@.delays.len() == delays@.len(),
        forall|i: int|
            0 <= i < delays@.len() ==> #[trigger] builder@.delays[i] == duration_of_millis(
                delays@[i],
            ) && nanos_of(builder@.delays[i]) == delays@[i] * 1_000_000,
        builder@.operation == operation,
        builder@.hooks == (Hooks {
            before_all: NoHook,
            after_all: NoHook,
            before_attempt: NoHook,
            after_attempt: NoHook,
        }),
{
    let mut durations: Vec<Duration> = Vec::new();
    let mut i: usize = 0;
    assert(durations@ =~= delays@.take(0).map_values(|ms: u64| duration_of_millis(ms)));
    while i < delays.len()
        invariant
            i <= delays@.len(),
            are_millis(durations@, delays@.take(i as int)),
        decreases delays@.len() - i,
    {
        durations.push(Duration::from_millis(delays[i]));
        i += 1;
        assert(durations@ =~= delays@.take(i as int).map_values(
            |ms: u64| duration_of_millis(ms),
        ));
    }
    assert(delays@.take(i as int) =~= delays@);
    Retry {
        delays: durations,
        operation,
        hooks: Hooks {
            before_all: NoHook,
            after_all: NoHook,
            before_attempt: NoHook,
            after_attempt: NoHook,
        },
    }
}

impl<F, BeforeAll, AfterAll, BeforeAttempt, AfterAttempt> Retry<
    F,
    BeforeAll,
    AfterAll,
    BeforeAttempt,
    AfterAttempt,
> {
    /// Hook called once before the retry loop starts. Receives a
    /// [`BeforeAttemptInfo`] with `attempt = 1`.
    pub fn before_all<H: FnMut(&BeforeAttemptInfo)>(self, hook: H) -> (builder: Retry<
        F,
        H,
        AfterAll,
        BeforeAttempt,
        AfterAttempt,
    >)
        ensures
            builder@ == self@.with_before_all(hook),
            builder@.delays == self@.delays,
            builder@.operation == self@.operation,
            builder@.hooks.before_all == hook,
            builder@.hooks.after_all == self@.hooks.after_all,
            builder@.hooks.before_attempt == self@.hooks.before_attempt,
            builder@.hooks.after_attempt == self@.hooks.after_attempt,
    {
        Retry {
            delays: self.delays,
            operation: self.operation,
            hooks: Hooks {
                before_all: hook,
                after_all: self.hooks.after_all,
                before_attempt: self.hooks.before_attempt,
                after_attempt: self.hooks.after_attempt,
            },
        }
    }

    /// Hook called once after the retry loop ends (success or failure). Receives
    /// an [`AfterAttemptInfo`] with `attempt` = total attempts made.
    pub fn after_all<H: FnMut(&AfterAttemptInfo)>(self, hook: H) -> (builder: Retry<
        F,
        BeforeAll,
        H,
        BeforeAttempt,
        AfterAttempt,
    >)
        ensures
            builder@ == self@.with_after_all(hook),
            builder@.delays == self@.delays,
            builder@.operation == self@.operation,
            builder@.hooks.before_all == self@.hooks.before_all,
            builder@.hooks.after_all == hook,
            builder@.hooks.before_attempt == self@.hooks.before_attempt,
            builder@.hooks.after_attempt == self@.hooks.after_attempt,
    {
        Retry {
            delays: self.delays,
            operation: self.operation,
            hooks: Hooks {
                before_all: self.hooks.before_all,
                after_all: hook,
                before_attempt: self.hooks.before_attempt,
                after_attempt: self.hooks.after_attempt,
            },
        }
    }

    /// Hook called before each attempt. Useful for logging.
    pub fn before_attempt<H: FnMut(&BeforeAttemptInfo)>(self, hook: H) -> (builder: Retry<
        F,
        BeforeAll,
        AfterAll,
        H,
        AfterAttempt,
    >)
        ensures
            builder@ == self@.with_before_attempt(hook),
            builder@.delays == self@.delays,
            builder@.operation == self@.operation,
            builder@.hooks.before_all == self@.hooks.before_all,
            builder@.hooks.after_all == self@.hooks.after_all,
            builder@.hooks.before_attempt == hook,
            builder@.hooks.after_attempt == self@.hooks.after_attempt,
    {
        Retry {
            delays: self.delays,
            operation: self.operation,
            hooks: Hooks {
                before_all: self.hooks.before_all,
                after_all: self.hooks.after_all,
                before_attempt: hook,
                after_attempt: self.hooks.after_attempt,
            },
        }
    }

    /// Hook called after each attempt. Check `success` to see whether it worked,
    /// and `next_delay` to see if a retry sleep is coming.
    pub fn after_attempt<H: FnMut(&AfterAttemptInfo)>(self, hook: H) -> (builder: Retry<
        F,
        BeforeAll,
        AfterAll,
        BeforeAttempt,
        H,
    >)
        ensures
            builder@ == self@.with_after_attempt(hook),
            builder@.delays == self@.delays,
            builder@.operation == self@.operation,
            builder@.hooks.before_all == self@.hooks.before_all,
            builder@.hooks.after_all == self@.hooks.after_all,
            builder@.hooks.before_attempt == self@.hooks.before_attempt,
            builder@.hooks.after_attempt == hook,
    {
        Retry {
            delays: self.delays,
            operation: self.operation,
            hooks: Hooks {
                before_all: self.hooks.before_all,
                after_all: self.hooks.after_all,
                before_attempt: self.hooks.before_attempt,
                after_attempt: hook,
            },
        }
    }

    /// Starts the retry loop: takes the builder apart into the [`Call`] that
    /// decides what happens, and the operation and the hooks that its driver
    /// is going to run when asked to. Elapsed time counts from now. The call
    /// ends in `Ok(T)` on success or `Err(E)` on permanent failure or exhaustion.
    pub fn call<T, E>(self) -> (parts: (
        Call<T, E>,
        F,
        Hooks<BeforeAll, AfterAll, BeforeAttempt, AfterAttempt>,
    ))
        ensures
            parts.0.wf(),
            parts.0.delays() == self@.delays,
            parts.0.stage() == Stage::<T, E>::Created,
            parts.0.last_error() == None::<E>,
            is_now(parts.0.start()),
            call_ensures(Instant::now, (), parts.0.start()),
            parts.1 == self@.operation,
            parts.2 == self@.hooks,
    {
        (Call::new(self.delays), self.operation, self.hooks)
    }
}

} // verus!
