//! The retry loop as a state machine.

use std::time::Duration;
use tokio::time::Instant;
use vstd::prelude::*;

use crate::clock::{is_now, shows};
use crate::error::RetryError;
use crate::info::{AfterAttemptInfo, BeforeAttemptInfo};

verus! {

/// What the driver of a [`Call`] reports: the action it was last asked for is
/// done.
pub enum Event<T, E> {
    /// A hook has been told, or a sleep is over, or nothing was asked for yet.
    Resume,
    /// The operation has completed with this outcome.
    Completed(Result<T, RetryError<E>>),
}

/// What a [`Call`] asks its driver to do next.
pub enum Action<T, E> {
    /// Tell the `before_all` hook.
    BeforeAll(BeforeAttemptInfo),
    /// Tell the `before_attempt` hook.
    BeforeAttempt(BeforeAttemptInfo),
    /// Run the operation and report its outcome.
    Operate,
    /// Tell the `after_attempt` hook.
    AfterAttempt(AfterAttemptInfo),
    /// Sleep for this long.
    Sleep(Duration),
    /// Tell the `after_all` hook.
    AfterAll(AfterAttemptInfo),
    /// Return this from the call. Nothing comes after it.
    Return(Result<T, E>),
}

/// How far a [`Call`] has got: the action it has last asked for, with what it
/// has to remember of the attempt under way.
pub enum Stage<T, E> {
    /// Nothing has been asked for.
    Created,
    /// The `before_all` hook is being told.
    Opened,
    /// The `before_attempt` hook is being told.
    Announced { attempt: u32 },
    /// The operation is running.
    Running { attempt: u32 },
    /// The `after_attempt` hook is being told of the outcome that ends the
    /// call: a success or a permanent error, seen when `elapsed` had passed.
    Settled { attempt: u32, elapsed: Duration, result: Result<T, E> },
    /// The `after_attempt` hook is being told of a transient error.
    Failed { attempt: u32, error: E },
    /// The delay after a failed attempt is being slept.
    Sleeping { attempt: u32 },
    /// The `after_all` hook is being told.
    Closed { result: Result<T, E> },
    /// The result has been handed over.
    Finished,
}

/// The delay scheduled between an attempt and the one after it, if there is
/// one after it. Attempts count from 1.
pub open spec fn delay_after(delays: Seq<Duration>, attempt: int) -> Option<Duration> {
    if 1 <= attempt <= delays.len() {
        Some(delays[attempt - 1])
    } else {
        None
    }
}

/// What is told before an attempt.
pub open spec fn before_info(
    delays: Seq<Duration>,
    attempt: u32,
    elapsed: Duration,
) -> BeforeAttemptInfo {
    BeforeAttemptInfo {
        attempt,
        next_delay: delay_after(delays, attempt as int),
        total_elapsed: elapsed,
    }
}

/// What is told after an attempt that ends the call by its outcome, and after
/// the whole call: no delay follows.
pub open spec fn closing_info(attempt: u32, success: bool, elapsed: Duration) -> AfterAttemptInfo {
    AfterAttemptInfo { attempt, success, next_delay: None, total_elapsed: elapsed }
}

impl<T, E> Stage<T, E> {
    /// Whether the stage is one that a call with these delays can be in.
    pub open spec fn wf(self, delays: Seq<Duration>) -> bool {
        match self {
            Stage::Announced { attempt } => 1 <= attempt <= delays.len() + 1,
            Stage::Running { attempt } => 1 <= attempt <= delays.len() + 1,
            Stage::Settled { attempt, .. } => 1 <= attempt <= delays.len() + 1,
            Stage::Failed { attempt, .. } => 1 <= attempt <= delays.len() + 1,
            Stage::Sleeping { attempt } => 1 <= attempt <= delays.len(),
            _ => true,
        }
    }

    /// Whether the event is the one that the stage is waiting for: an outcome
    /// while the operation runs, and a plain resumption at every other stage
    /// but the last. After a sleep, the number of the next attempt must exist.
    pub open spec fn accepts(self, event: Event<T, E>) -> bool {
        match self {
            Stage::Running { .. } => event is Completed,
            Stage::Sleeping { attempt } => event is Resume && attempt < u32::MAX,
            Stage::Finished => false,
            _ => event is Resume,
        }
    }

    /// The next stage, and the action that is asked for on the way to it, when
    /// an accepted event comes in and the clock shows `elapsed`.
    pub open spec fn next(
        self,
        delays: Seq<Duration>,
        event: Event<T, E>,
        elapsed: Duration,
    ) -> (Stage<T, E>, Action<T, E>)
        recommends
            self.accepts(event),
    {
        match (self, event) {
            (Stage::Created, _) => (
                Stage::Opened,
                Action::BeforeAll(before_info(delays, 1, elapsed)),
            ),
            (Stage::Opened, _) => (
                Stage::Announced { attempt: 1 },
                Action::BeforeAttempt(before_info(delays, 1, elapsed)),
            ),
            (Stage::Announced { attempt }, _) => (Stage::Running { attempt }, Action::Operate),
            (Stage::Running { attempt }, Event::Completed(Ok(value))) => (
                Stage::Settled { attempt, elapsed, result: Ok(value) },
                Action::AfterAttempt(closing_info(attempt, true, elapsed)),
            ),
            (Stage::Running { attempt }, Event::Completed(Err(RetryError::Permanent(error)))) => (
                Stage::Settled { attempt, elapsed, result: Err(error) },
                Action::AfterAttempt(closing_info(attempt, false, elapsed)),
            ),
            (Stage::Running { attempt }, Event::Completed(Err(RetryError::Transient(error)))) => (
                Stage::Failed { attempt, error },
                Action::AfterAttempt(
                    AfterAttemptInfo {
                        attempt,
                        success: false,
                        next_delay: delay_after(delays, attempt as int),
                        total_elapsed: elapsed,
                    },
                ),
            ),
            (Stage::Settled { attempt, elapsed: seen, result }, _) => (
                Stage::Closed { result },
                Action::AfterAll(closing_info(attempt, result is Ok, seen)),
            ),
            (Stage::Failed { attempt, error }, _) => match delay_after(delays, attempt as int) {
                Some(delay) => (Stage::Sleeping { attempt }, Action::Sleep(delay)),
                None => (
                    Stage::Closed { result: Err(error) },
                    Action::AfterAll(closing_info(attempt, false, elapsed)),
                ),
            },
            (Stage::Sleeping { attempt }, _) => (
                Stage::Announced { attempt: (attempt + 1) as u32 },
                Action::BeforeAttempt(before_info(delays, (attempt + 1) as u32, elapsed)),
            ),
            (Stage::Closed { result }, _) => (Stage::Finished, Action::Return(result)),
            _ => arbitrary(),
        }
    }

    /// The error that is held on to after the next step, given the one that is
    /// held on to now: that of an attempt whose delay is about to be slept takes
    /// the place of the one before it.
    pub open spec fn keeps_error(self, delays: Seq<Duration>, last_error: Option<E>) -> Option<E> {
        match self {
            Stage::Failed { attempt, error } if delay_after(delays, attempt as int) is Some => Some(
                error,
            ),
            _ => last_error,
        }
    }
}

/// One run of the retry loop, from its first hook to its result.
///
/// Made by [`Retry::call`](crate::builder::Retry::call). A driver starts it
/// with [`Event::Resume`], performs each action that [`Call::step`] asks for,
/// and reports back, until it is asked to return.
///
/// The error of an attempt that is followed by another one is held on to until
/// the next such error takes its place, or the call itself is dropped.
pub struct Call<T, E> {
    delays: Vec<Duration>,
    start: Instant,
    stage: Stage<T, E>,
    last_error: Option<E>,
}

impl<T, E> Call<T, E> {
    /// The delays between attempts.
    pub closed spec fn delays(&self) -> Seq<Duration> {
        self.delays@
    }

    /// The instant from which elapsed time is counted.
    pub closed spec fn start(&self) -> Instant {
        self.start
    }

    /// How far the call has got.
    pub closed spec fn stage(&self) -> Stage<T, E> {
        self.stage
    }

    /// The error of the last attempt that was followed by a sleep, if any was.
    pub closed spec fn last_error(&self) -> Option<E> {
        self.last_error
    }

    /// The stage fits the delays.
    pub open spec fn wf(&self) -> bool {
        self.stage().wf(self.delays())
    }

    /// Whether `next` and `action` are what `event` leads to when the clock
    /// shows `elapsed`: the machine moves on as its stage says, over the same
    /// delays and from the same start, and holds on to the error that it should.
    pub open spec fn leads_to(
        &self,
        event: Event<T, E>,
        elapsed: Duration,
        next: Self,
        action: Action<T, E>,
    ) -> bool {
        &&& next.delays() == self.delays()
        &&& next.start() == self.start()
        &&& (next.stage(), action) == self.stage().next(self.delays(), event, elapsed)
        &&& next.last_error() == self.stage().keeps_error(self.delays(), self.last_error())
    }

    /// A call over these delays that has asked for nothing yet. Reads the
    /// clock: elapsed time counts from now.
    pub(crate) fn new(delays: Vec<Duration>) -> (call: Self)
        ensures
            call.wf(),
            call.delays() == delays@,
            call.stage() == Stage::<T, E>::Created,
            call.last_error() == None::<E>,
            is_now(call.start()),
            call_ensures(Instant::now, (), call.start()),
    {
        Call { delays, start: Instant::now(), stage: Stage::Created, last_error: None }
    }

    /// Whether [`Call::step`] may be called with this event now.
    pub fn accepts(&self, event: &Event<T, E>) -> (accepted: bool)
        ensures
            accepted == self.stage().accepts(*event),
            accepted == (match self.stage() {
                Stage::Running { .. } => *event is Completed,
                Stage::Sleeping { attempt } => *event is Resume && attempt < u32::MAX,
                Stage::Finished => false,
                _ => *event is Resume,
            }),
    {
        match (&self.stage, event) {
            (Stage::Running { .. }, Event::Completed(_)) => true,
            (Stage::Running { .. }, Event::Resume) => false,
            (Stage::Finished, _) => false,
            (Stage::Sleeping { attempt }, Event::Resume) => *attempt < u32::MAX,
            (_, Event::Resume) => true,
            (_, Event::Completed(_)) => false,
        }
    }

    /// The delay scheduled after an attempt.
    fn scheduled_delay(&self, attempt: u32) -> (delay: Option<Duration>)
        requires
            attempt >= 1,
        ensures
            delay == delay_after(self.delays(), attempt as int),
    {
        let index: usize = (attempt - 1) as usize;
        if index < self.delays.len() {
            Some(self.delays[index])
        } else {
            None
        }
    }

    /// Takes the report of the driver, with the time that has passed since the
    /// start, and decides what comes next.
    pub fn advance(self, event: Event<T, E>, elapsed: Duration) -> (moved: (Self, Action<T, E>))
        requires
            self.wf(),
            self.stage().accepts(event),
        ensures
            moved.0.wf(),
            moved.0.delays() == self.delays(),
            moved.0.start() == self.start(),
            self.leads_to(event, elapsed, moved.0, moved.1),
    {
        // The attempt that the next action is about.
        let number: u32 = match &self.stage {
            Stage::Announced { attempt } => *attempt,
            Stage::Running { attempt } => *attempt,
            Stage::Settled { attempt, .. } => *attempt,
            Stage::Failed { attempt, .. } => *attempt,
            Stage::Sleeping { attempt } => *attempt + 1,
            _ => 1,
        };
        let scheduled = self.scheduled_delay(number);
        let before = BeforeAttemptInfo {
            attempt: number,
            next_delay: scheduled,
            total_elapsed: elapsed,
        };
        let Call { delays, start, stage, mut last_error } = self;
        let (stage, action) = match (stage, event) {
            (Stage::Created, _) => (Stage::Opened, Action::BeforeAll(before)),
            (Stage::Opened, _) => (
                Stage::Announced { attempt: 1 },
                Action::BeforeAttempt(before),
            ),
            (Stage::Announced { attempt }, _) => (Stage::Running { attempt }, Action::Operate),
            (Stage::Running { attempt }, Event::Completed(Ok(value))) => (
                Stage::Settled { attempt, elapsed, result: Ok(value) },
                Action::AfterAttempt(Self::closing(attempt, true, elapsed)),
            ),
            (Stage::Running { attempt }, Event::Completed(Err(RetryError::Permanent(error)))) => (
                Stage::Settled { attempt, elapsed, result: Err(error) },
                Action::AfterAttempt(Self::closing(attempt, false, elapsed)),
            ),
            (Stage::Running { attempt }, Event::Completed(Err(RetryError::Transient(error)))) => (
                Stage::Failed { attempt, error },
                Action::AfterAttempt(
                    AfterAttemptInfo {
                        attempt,
                        success: false,
                        next_delay: scheduled,
                        total_elapsed: elapsed,
                    },
                ),
            ),
            (Stage::Settled { attempt, elapsed: seen, result }, _) => {
                let success = result.is_ok();
                (Stage::Closed { result }, Action::AfterAll(Self::closing(attempt, success, seen)))
            },
            (Stage::Failed { attempt, error }, _) => match scheduled {
                Some(delay) => {
                    last_error = Some(error);
                    (Stage::Sleeping { attempt }, Action::Sleep(delay))
                },
                None => (
                    Stage::Closed { result: Err(error) },
                    Action::AfterAll(Self::closing(attempt, false, elapsed)),
                ),
            },
            (Stage::Sleeping { .. }, _) => (
                Stage::Announced { attempt: number },
                Action::BeforeAttempt(before),
            ),
            (Stage::Closed { result }, _) => (Stage::Finished, Action::Return(result)),
            _ => vstd::pervasive::unreached(),
        };
        (Call { delays, start, stage, last_error }, action)
    }

    /// What is told when no delay follows.
    fn closing(attempt: u32, success: bool, elapsed: Duration) -> (info: AfterAttemptInfo)
        ensures
            info == closing_info(attempt, success, elapsed),
    {
        AfterAttemptInfo { attempt, success, next_delay: None, total_elapsed: elapsed }
    }

    /// Takes the report of the driver, reads on the clock how much time has
    /// passed since the start, and decides what comes next, as [`Call::advance`]
    /// does for that reading.
    pub fn step(self, event: Event<T, E>) -> (moved: (Self, Action<T, E>))
        requires
            self.wf(),
            self.stage().accepts(event),
        ensures
            moved.0.wf(),
            moved.0.delays() == self.delays(),
            moved.0.start() == self.start(),
            exists|elapsed: Duration|
                shows(self.start(), elapsed) && call_ensures(
                    Instant::elapsed,
                    (&self.start(),),
                    elapsed,
                ) && #[trigger] self.leads_to(event, elapsed, moved.0, moved.1),
    {
        let elapsed = self.start.elapsed();
        self.advance(event, elapsed)
    }
}

} // verus!
