//! What a whole call does.
//!
//! The contracts of [`Call`](crate::call::Call) say what one step does. The
//! laws here put steps together: they follow a call from its creation to its
//! result, whatever the operation answers and whatever the clock shows.

use std::time::Duration;
use vstd::prelude::*;

use crate::builder::RetryView;
use crate::call::{before_info, closing_info, delay_after, Action, Call, Event, Stage};
use crate::clock::{are_millis, nanos_of};
use crate::error::{retryable, stripped, RetryError};
use crate::info::AfterAttemptInfo;

verus! {

/// All that a call depends on.
#[verifier::reject_recursive_types(T)]
#[verifier::reject_recursive_types(E)]
pub struct Scenario<T, E> {
    /// The delays between attempts.
    pub delays: Seq<Duration>,
    /// What the operation answers in each attempt, counted from 1.
    pub outcomes: spec_fn(nat) -> Result<T, RetryError<E>>,
    /// What the clock shows at each step, counted from 0.
    pub clock: spec_fn(nat) -> Duration,
}

impl<T, E> Scenario<T, E> {
    /// What a driver reports at a stage: the outcome of the operation while it
    /// runs, and nothing special at any other stage.
    pub open spec fn reply(self, stage: Stage<T, E>) -> Event<T, E> {
        match stage {
            Stage::Running { attempt } => Event::Completed((self.outcomes)(attempt as nat)),
            _ => Event::Resume,
        }
    }

    /// The stage of the call before step `n`.
    pub open spec fn stage(self, n: nat) -> Stage<T, E>
        decreases n,
    {
        if n == 0 {
            Stage::Created
        } else {
            let last = (n - 1) as nat;
            let stage = self.stage(last);
            stage.next(self.delays, self.reply(stage), (self.clock)(last)).0
        }
    }

    /// The action that is asked for at step `n`.
    pub open spec fn action(self, n: nat) -> Action<T, E> {
        let stage = self.stage(n);
        stage.next(self.delays, self.reply(stage), (self.clock)(n)).1
    }

    /// Whether the driver may take step `n`.
    pub open spec fn accepted(self, n: nat) -> bool {
        self.stage(n).accepts(self.reply(self.stage(n)))
    }

    /// The actions of the first `n` steps.
    pub open spec fn trace(self, n: nat) -> Seq<Action<T, E>> {
        Seq::new(n, |k: int| self.action(k as nat))
    }

    /// Whether the call makes this many attempts: all but the last of them end
    /// in a transient error, and the last one either does not or has no delay
    /// left after it.
    pub open spec fn takes(self, attempts: nat) -> bool {
        &&& 1 <= attempts <= self.delays.len() + 1
        &&& forall|a: nat| 1 <= a < attempts ==> retryable(#[trigger] (self.outcomes)(a))
        &&& attempts == self.delays.len() + 1 || !retryable((self.outcomes)(attempts))
    }

    /// The number of steps of a call that makes this many attempts.
    pub open spec fn steps(attempts: nat) -> nat {
        4 * attempts + 2
    }

    /// What is told after an attempt.
    pub open spec fn report(self, attempt: nat) -> AfterAttemptInfo {
        let outcome = (self.outcomes)(attempt);
        AfterAttemptInfo {
            attempt: attempt as u32,
            success: outcome is Ok,
            next_delay: if retryable(outcome) {
                delay_after(self.delays, attempt as int)
            } else {
                None
            },
            total_elapsed: (self.clock)((4 * attempt - 1) as nat),
        }
    }

    /// What is told after a call whose last attempt is this one. The clock is
    /// read anew only where retries are exhausted.
    pub open spec fn farewell(self, attempt: nat) -> AfterAttemptInfo {
        let outcome = (self.outcomes)(attempt);
        closing_info(
            attempt as u32,
            outcome is Ok,
            if retryable(outcome) {
                (self.clock)(4 * attempt)
            } else {
                (self.clock)((4 * attempt - 1) as nat)
            },
        )
    }

    /// The actions of one attempt.
    pub open spec fn round(self, attempt: nat) -> Seq<Action<T, E>> {
        seq![
            Action::BeforeAttempt(
                before_info(
                    self.delays,
                    attempt as u32,
                    (self.clock)((4 * attempt - 3) as nat),
                ),
            ),
            Action::Operate,
            Action::AfterAttempt(self.report(attempt)),
        ]
    }

    /// The actions up to the sleep after this many failed attempts.
    pub open spec fn opening(self, failed: nat) -> Seq<Action<T, E>>
        decreases failed,
    {
        if failed == 0 {
            seq![Action::BeforeAll(before_info(self.delays, 1, (self.clock)(0)))]
        } else {
            self.opening((failed - 1) as nat) + self.round(failed) + seq![
                Action::Sleep(self.delays[failed - 1]),
            ]
        }
    }

    /// The actions of a call that makes this many attempts.
    pub open spec fn script(self, attempts: nat) -> Seq<Action<T, E>> {
        self.opening((attempts - 1) as nat) + self.round(attempts) + seq![
            Action::AfterAll(self.farewell(attempts)),
            Action::Return(stripped((self.outcomes)(attempts))),
        ]
    }

    /// Attempts numbered up to `a` go as planned: the steps of attempt `a`, and
    /// the stage in which it leaves the call.
    proof fn lemma_round(self, a: nat)
        requires
            1 <= a <= self.delays.len() + 1,
            a <= u32::MAX,
            forall|i: nat| 1 <= i < a ==> retryable(#[trigger] (self.outcomes)(i)),
        ensures
            self.stage((4 * a - 3) as nat) == (if a == 1 {
                Stage::<T, E>::Opened
            } else {
                Stage::<T, E>::Sleeping { attempt: (a - 1) as u32 }
            }),
            self.stage((4 * a - 2) as nat) == (Stage::<T, E>::Announced { attempt: a as u32 }),
            self.stage((4 * a - 1) as nat) == (Stage::<T, E>::Running { attempt: a as u32 }),
            self.stage(4 * a) == (match (self.outcomes)(a) {
                Err(RetryError::Transient(error)) => Stage::Failed { attempt: a as u32, error },
                outcome => Stage::Settled {
                    attempt: a as u32,
                    elapsed: (self.clock)((4 * a - 1) as nat),
                    result: stripped(outcome),
                },
            }),
            self.action((4 * a - 3) as nat) == self.round(a)[0],
            self.action((4 * a - 2) as nat) == self.round(a)[1],
            self.action((4 * a - 1) as nat) == self.round(a)[2],
        decreases a,
    {
        if a == 1 {
            assert(self.stage(0) == Stage::<T, E>::Created);
            assert(self.stage(1) == Stage::<T, E>::Opened);
        } else {
            let p = (a - 1) as nat;
            self.lemma_round(p);
            assert(retryable((self.outcomes)(p)));
            assert(self.stage(4 * p + 1) == (Stage::<T, E>::Sleeping { attempt: p as u32 }));
            assert(4 * p + 1 == 4 * a - 3);
        }
        assert(self.stage((4 * a - 2) as nat) == (Stage::<T, E>::Announced { attempt: a as u32 }));
        assert(self.stage((4 * a - 1) as nat) == (Stage::<T, E>::Running { attempt: a as u32 }));
    }

    /// After a failed attempt with a delay left, the delay is slept.
    proof fn lemma_sleep(self, a: nat)
        requires
            1 <= a <= self.delays.len(),
            a <= u32::MAX,
            forall|i: nat| 1 <= i <= a ==> retryable(#[trigger] (self.outcomes)(i)),
        ensures
            self.action(4 * a) == Action::<T, E>::Sleep(self.delays[a - 1]),
            self.accepted(4 * a),
    {
        self.lemma_round(a);
        assert(retryable((self.outcomes)(a)));
    }

    /// The last attempt is followed by the end of the call.
    proof fn lemma_ending(self, attempts: nat)
        requires
            self.takes(attempts),
            attempts <= u32::MAX,
        ensures
            self.action(4 * attempts) == Action::<T, E>::AfterAll(self.farewell(attempts)),
            self.action(4 * attempts + 1) == Action::<T, E>::Return(
                stripped((self.outcomes)(attempts)),
            ),
            self.accepted(4 * attempts),
            self.accepted(4 * attempts + 1),
            self.stage(4 * attempts + 2) is Finished,
    {
        self.lemma_round(attempts);
        assert(self.stage(4 * attempts + 1) == (Stage::<T, E>::Closed {
            result: stripped((self.outcomes)(attempts)),
        }));
    }

    /// A call whose first attempts fail goes as scripted up to the next attempt.
    proof fn lemma_opening(self, failed: nat)
        requires
            failed <= self.delays.len(),
            failed <= u32::MAX,
            forall|i: nat| 1 <= i <= failed ==> retryable(#[trigger] (self.outcomes)(i)),
        ensures
            self.trace(4 * failed + 1) == self.opening(failed),
            forall|k: nat| k < 4 * failed + 1 ==> #[trigger] self.accepted(k),
        decreases failed,
    {
        if failed == 0 {
            assert(self.trace(1) =~= self.opening(0));
        } else {
            let p = (failed - 1) as nat;
            self.lemma_opening(p);
            self.lemma_round(failed);
            self.lemma_sleep(failed);
            assert(self.trace(4 * failed + 1) =~= self.trace(4 * p + 1) + self.round(failed) + seq![
                Action::Sleep(self.delays[failed - 1]),
            ]);
            assert forall|k: nat| k < 4 * failed + 1 implies #[trigger] self.accepted(k) by {
                if k >= 4 * p + 1 {
                    assert(k == 4 * failed - 3 || k == 4 * failed - 2 || k == 4 * failed - 1 || k
                        == 4 * failed);
                }
            }
        }
    }

    /// A call runs through its script and is then finished: `before_all`, then
    /// for each attempt `before_attempt`, the operation and `after_attempt`,
    /// with the scheduled delay slept between attempts, then `after_all`, then
    /// the result. Each step on the way is one that the driver may take.
    pub proof fn law_call_follows_script(self, attempts: nat)
        requires
            self.takes(attempts),
            attempts <= u32::MAX,
        ensures
            self.trace(Self::steps(attempts)) == self.script(attempts),
            self.stage(Self::steps(attempts)) is Finished,
            forall|k: nat| k < Self::steps(attempts) ==> #[trigger] self.accepted(k),
    {
        let p = (attempts - 1) as nat;
        self.lemma_opening(p);
        self.lemma_round(attempts);
        self.lemma_ending(attempts);
        assert(self.trace(Self::steps(attempts)) =~= self.trace(4 * p + 1) + self.round(attempts)
            + seq![
            Action::AfterAll(self.farewell(attempts)),
            Action::Return(stripped((self.outcomes)(attempts))),
        ]);
        assert forall|k: nat| k < Self::steps(attempts) implies #[trigger] self.accepted(k) by {
            if k >= 4 * p + 1 {
                assert(k == 4 * attempts - 3 || k == 4 * attempts - 2 || k == 4 * attempts - 1 || k
                    == 4 * attempts || k == 4 * attempts + 1);
            }
        }
    }

    /// The same of the calls themselves: when a driver steps a fresh call along,
    /// reporting outcomes as they come, until it is asked to return, each of its
    /// reports is one that the call accepts, the actions it is asked for are the
    /// script, and the call it ends up with is finished.
    pub proof fn law_driven_call_follows_script(
        self,
        calls: Seq<Call<T, E>>,
        actions: Seq<Action<T, E>>,
        attempts: nat,
    )
        requires
            self.drives(calls, actions),
            self.takes(attempts),
            attempts <= u32::MAX,
            ends_with_return(actions),
        ensures
            actions.len() == Self::steps(attempts),
            actions == self.script(attempts),
            calls.last().stage() is Finished,
            forall|k: int|
                0 <= k < actions.len() ==> (#[trigger] calls[k]).stage().accepts(
                    self.reply(calls[k].stage()),
                ),
    {
        assert forall|k: nat| k <= actions.len() implies #[trigger] calls[k as int].stage()
            == self.stage(k) by {
            self.lemma_driven(calls, actions, k);
        }
        assert forall|k: int| 0 <= k < actions.len() implies #[trigger] actions[k] == self.action(
            k as nat,
        ) by {
            self.lemma_driven(calls, actions, k as nat);
            assert(self.steps_to(calls, actions, k));
        }
        let end = (Self::steps(attempts) - 1) as nat;
        self.lemma_ending(attempts);
        if actions.len() > end + 1 {
            assert(actions[end as int] is Return);
        } else if actions.len() < end + 1 {
            self.lemma_action(attempts, (actions.len() - 1) as nat);
        }
        assert(actions =~= self.trace(Self::steps(attempts)));
        self.law_call_follows_script(attempts);
        assert(calls.last() == calls[Self::steps(attempts) as int]);
        assert forall|k: int| 0 <= k < actions.len() implies (#[trigger] calls[k]).stage().accepts(
            self.reply(calls[k].stage()),
        ) by {
            assert(calls[k as nat as int].stage() == self.stage(k as nat));
            assert(self.accepted(k as nat));
        }
    }

    /// The error of an attempt that is followed by another one is held on to
    /// through the sleep and the attempt after it: until the next such error
    /// takes its place, or to the end of the call.
    pub proof fn law_last_error_is_held(
        self,
        calls: Seq<Call<T, E>>,
        actions: Seq<Action<T, E>>,
        attempts: nat,
        attempt: nat,
        k: nat,
    )
        requires
            self.drives(calls, actions),
            self.takes(attempts),
            attempts <= u32::MAX,
            actions.len() <= Self::steps(attempts),
            calls[0].last_error() == None::<E>,
            attempt < attempts,
            4 * attempt < k <= actions.len(),
            k <= 4 * (attempt + 1) || attempt + 1 == attempts,
        ensures
            calls[k as int].last_error() == (if attempt == 0 {
                None
            } else {
                match (self.outcomes)(attempt) {
                    Err(error) => Some(error.inner()),
                    Ok(_) => None,
                }
            }),
        decreases k,
    {
        let p = (k - 1) as nat;
        self.lemma_driven(calls, actions, p);
        assert(self.steps_to(calls, actions, p as int));
        if p == 0 {
            assert(self.stage(0) == Stage::<T, E>::Created);
        } else if p == 4 * attempt {
            assert(retryable((self.outcomes)(attempt)));
            self.lemma_round(attempt);
        } else {
            self.law_last_error_is_held(calls, actions, attempts, attempt, p);
            self.lemma_round(attempt + 1);
            if p >= 4 * attempts {
                self.lemma_ending(attempts);
                assert(p == 4 * attempts || p == 4 * attempts + 1);
                assert(self.stage(4 * attempts + 1) is Closed);
            } else {
                assert(p == 4 * attempt + 1 || p == 4 * attempt + 2 || p == 4 * attempt + 3);
            }
        }
    }

    /// Step `k` of a driven call: the driver reports what the stage waits for,
    /// and the call moves on by what the clock shows.
    pub open spec fn steps_to(
        self,
        calls: Seq<Call<T, E>>,
        actions: Seq<Action<T, E>>,
        k: int,
    ) -> bool {
        calls[k].leads_to(
            self.reply(calls[k].stage()),
            (self.clock)(k as nat),
            calls[k + 1],
            actions[k],
        )
    }

    /// Whether these are the calls that a driver sees in this scenario, from a
    /// fresh one on, and the actions that it is asked for between them.
    pub open spec fn drives(self, calls: Seq<Call<T, E>>, actions: Seq<Action<T, E>>) -> bool {
        &&& calls.len() == actions.len() + 1
        &&& calls[0].delays() == self.delays
        &&& calls[0].stage() == Stage::<T, E>::Created
        &&& forall|k: int|
            0 <= k < actions.len() ==> #[trigger] self.steps_to(calls, actions, k)
    }

    /// The stages of a driven call are those of the scenario.
    proof fn lemma_driven(self, calls: Seq<Call<T, E>>, actions: Seq<Action<T, E>>, k: nat)
        requires
            self.drives(calls, actions),
            k <= actions.len(),
        ensures
            calls[k as int].stage() == self.stage(k),
            calls[k as int].delays() == self.delays,
        decreases k,
    {
        if k > 0 {
            self.lemma_driven(calls, actions, (k - 1) as nat);
            assert(self.steps_to(calls, actions, k - 1));
        }
    }

    /// Every call comes to an end: whatever the operation answers, there is a
    /// number of attempts that the call makes, and only one. It is at least one
    /// and at most one more than there are delays.
    pub proof fn law_every_call_ends(self)
        ensures
            exists|attempts: nat| #[trigger] self.takes(attempts),
            forall|a: nat, b: nat| #[trigger] self.takes(a) && #[trigger] self.takes(b) ==> a == b,
            forall|a: nat| #[trigger] self.takes(a) ==> 1 <= a <= self.delays.len() + 1,
    {
        let _ = self.lemma_first_final(1);
        assert forall|a: nat, b: nat| #[trigger]
            self.takes(a) && #[trigger] self.takes(b) implies a == b by {
            if a < b {
                assert(retryable((self.outcomes)(a)));
            } else if b < a {
                assert(retryable((self.outcomes)(b)));
            }
        }
    }

    /// Looks for the attempt that is the last one.
    proof fn lemma_first_final(self, from: nat) -> (attempts: nat)
        requires
            1 <= from <= self.delays.len() + 1,
            forall|a: nat| 1 <= a < from ==> retryable(#[trigger] (self.outcomes)(a)),
        ensures
            self.takes(attempts),
        decreases self.delays.len() + 1 - from,
    {
        if from == self.delays.len() + 1 || !retryable((self.outcomes)(from)) {
            from
        } else {
            self.lemma_first_final(from + 1)
        }
    }

    /// An outcome that is no transient error ends the call at once: no attempt
    /// comes after a success or a permanent error.
    pub proof fn law_final_outcome_stops(self, attempt: nat)
        requires
            1 <= attempt <= self.delays.len() + 1,
            forall|a: nat| 1 <= a < attempt ==> retryable(#[trigger] (self.outcomes)(a)),
            !retryable((self.outcomes)(attempt)),
        ensures
            self.takes(attempt),
    {
    }

    /// If the operation keeps failing with transient errors, it is attempted
    /// once and then once more per delay. With no delays that is a single
    /// attempt.
    pub proof fn law_exhaustion(self)
        requires
            forall|a: nat|
                1 <= a <= self.delays.len() + 1 ==> retryable(#[trigger] (self.outcomes)(a)),
        ensures
            self.takes(self.delays.len() + 1),
    {
    }

    /// A call returns what its last attempt came to, with the classification of
    /// the error stripped off: the value, the permanent error, or, once there is
    /// no delay left, the transient error. It returns once, at its end, right
    /// after `after_all` has been told of all the attempts made and of whether
    /// the call succeeds.
    pub proof fn law_result(self, attempts: nat)
        requires
            self.takes(attempts),
            attempts <= u32::MAX,
        ensures
            ({
                let trace = self.trace(Self::steps(attempts));
                let result: Result<T, E> = match (self.outcomes)(attempts) {
                    Ok(value) => Ok(value),
                    Err(RetryError::Permanent(error)) => Err(error),
                    Err(RetryError::Transient(error)) => Err(error),
                };
                &&& trace.last() == Action::<T, E>::Return(result)
                &&& forall|k: int|
                    0 <= k < trace.len() - 1 ==> #[trigger] trace[k] !is Return
                &&& trace[trace.len() - 2] matches Action::AfterAll(info) && {
                    &&& info.attempt == attempts
                    &&& info.success == (result is Ok)
                    &&& info.next_delay is None
                }
                &&& retryable((self.outcomes)(attempts)) ==> attempts == self.delays.len() + 1
            }),
    {
        self.lemma_ending(attempts);
        assert forall|k: int| 0 <= k < Self::steps(attempts) - 1 implies #[trigger] self.trace(
            Self::steps(attempts),
        )[k] !is Return by {
            self.lemma_action(attempts, k as nat);
        }
    }

    /// The action at each step, in closed form.
    proof fn lemma_action(self, attempts: nat, k: nat)
        requires
            self.takes(attempts),
            attempts <= u32::MAX,
            k < Self::steps(attempts),
        ensures
            self.action(k) == (if k == 0 {
                Action::<T, E>::BeforeAll(before_info(self.delays, 1, (self.clock)(0)))
            } else if k == 4 * attempts {
                Action::AfterAll(self.farewell(attempts))
            } else if k == 4 * attempts + 1 {
                Action::Return(stripped((self.outcomes)(attempts)))
            } else if k % 4 == 0 {
                Action::Sleep(self.delays[k / 4 - 1])
            } else {
                self.round(k / 4 + 1)[k % 4 - 1]
            }),
    {
        let a = k / 4 + 1;
        if k == 0 {
            assert(self.stage(0) == Stage::<T, E>::Created);
        } else if k >= 4 * attempts {
            self.lemma_ending(attempts);
        } else if k % 4 == 0 {
            self.lemma_sleep(k / 4);
        } else {
            self.lemma_round(a);
        }
    }

    /// The action at step `k` of a call that makes this many attempts is of the
    /// kind that belongs there, and carries what it should.
    pub open spec fn in_place(self, attempts: nat, k: nat) -> bool {
        let action = self.action(k);
        &&& action is BeforeAll <==> k == 0
        &&& action is BeforeAttempt <==> k % 4 == 1 && k < 4 * attempts
        &&& action is Operate <==> k % 4 == 2
        &&& action is AfterAttempt <==> k % 4 == 3
        &&& action is Sleep <==> k % 4 == 0 && 0 < k < 4 * attempts
        &&& action is AfterAll <==> k == 4 * attempts
        &&& action is Return <==> k == 4 * attempts + 1
        &&& match action {
            Action::BeforeAll(info) => info == before_info(self.delays, 1, (self.clock)(0)),
            Action::BeforeAttempt(info) => info == before_info(
                self.delays,
                (k / 4 + 1) as u32,
                (self.clock)(k),
            ),
            Action::Operate => true,
            Action::AfterAttempt(info) => info == self.report(k / 4 + 1),
            Action::Sleep(delay) => delay == self.delays[k / 4 - 1],
            Action::AfterAll(info) => info == self.farewell(attempts),
            Action::Return(result) => result == stripped((self.outcomes)(attempts)),
        }
    }

    /// What each hook is told over a whole call, and what is done in between.
    /// `before_all` is told once, at the start; `after_all` once, right before
    /// the result; the other two hooks once per attempt, with attempts numbered
    /// from 1; the operation runs once per attempt; and the delays are slept in
    /// order, one between each attempt and the next.
    pub proof fn law_actions_by_kind(self, attempts: nat)
        requires
            self.takes(attempts),
            attempts <= u32::MAX,
        ensures
            forall|k: nat| k < Self::steps(attempts) ==> #[trigger] self.in_place(attempts, k),
    {
        assert forall|k: nat| k < Self::steps(attempts) implies #[trigger] self.in_place(
            attempts,
            k,
        ) by {
            self.lemma_action(attempts, k);
        }
    }

    /// Whether the actions around step `k` put the operation between its hooks:
    /// `before_attempt` right before it and `after_attempt` right after it, both
    /// told the number of the attempt, and neither without the operation.
    pub open spec fn bracketed(self, attempts: nat, k: nat) -> bool {
        &&& self.action(k) is Operate ==> {
            &&& 1 <= k < 4 * attempts
            &&& self.action((k - 1) as nat) matches Action::BeforeAttempt(before)
            &&& self.action(k + 1) matches Action::AfterAttempt(after)
            &&& 1 <= before.attempt == after.attempt <= attempts
            &&& after.success == ((self.outcomes)(after.attempt as nat) is Ok)
        }
        &&& self.action(k) is BeforeAttempt ==> self.action(k + 1) is Operate
        &&& self.action(k) is AfterAttempt ==> k >= 1 && self.action((k - 1) as nat) is Operate
    }

    /// Each attempt stands between its two hooks. `after_attempt` is told of a
    /// success exactly where the operation succeeded.
    pub proof fn law_attempts_are_bracketed(self, attempts: nat)
        requires
            self.takes(attempts),
            attempts <= u32::MAX,
        ensures
            forall|k: nat| k < Self::steps(attempts) ==> #[trigger] self.bracketed(attempts, k),
    {
        assert forall|k: nat| k < Self::steps(attempts) implies #[trigger] self.bracketed(
            attempts,
            k,
        ) by {
            self.lemma_action(attempts, k);
            if 0 < k {
                self.lemma_action(attempts, (k - 1) as nat);
            }
            if k + 1 < Self::steps(attempts) {
                self.lemma_action(attempts, k + 1);
            }
        }
    }

    /// Whether step `k` keeps to a delay that was announced for it: that delay
    /// is slept, or, where there is none, the call ends.
    pub open spec fn keeps(self, k: nat, announced: Option<Duration>) -> bool {
        match announced {
            Some(delay) => self.action(k) == Action::<T, E>::Sleep(delay),
            None => self.action(k) is AfterAll,
        }
    }

    /// Whether the delay that is announced at step `k`, if it is one at which a
    /// hook is told of a delay, is kept.
    pub open spec fn delay_kept(self, k: nat) -> bool {
        match self.action(k) {
            Action::AfterAttempt(info) => self.keeps(k + 1, info.next_delay),
            Action::BeforeAttempt(info) => {
                &&& info.next_delay is None <==> info.attempt == self.delays.len() + 1
                &&& retryable((self.outcomes)(info.attempt as nat)) ==> self.keeps(
                    k + 3,
                    info.next_delay,
                )
            },
            _ => true,
        }
    }

    /// The delays that hooks are told of are the delays that are slept. After an
    /// attempt, `next_delay` is the sleep that comes next, or `None` where the
    /// call ends instead. Before an attempt, it is the sleep that comes if the
    /// attempt fails with a transient error, and `None` on the last attempt
    /// that the delays allow.
    pub proof fn law_next_delay(self, attempts: nat)
        requires
            self.takes(attempts),
            attempts <= u32::MAX,
        ensures
            forall|k: nat| k < Self::steps(attempts) ==> #[trigger] self.delay_kept(k),
    {
        assert forall|k: nat| k < Self::steps(attempts) implies #[trigger] self.delay_kept(k) by {
            self.lemma_action(attempts, k);
            let a = k / 4 + 1;
            if a < attempts {
                assert(retryable((self.outcomes)(a)));
            }
            if k + 1 < Self::steps(attempts) {
                self.lemma_action(attempts, k + 1);
            }
            if k + 3 < Self::steps(attempts) {
                self.lemma_action(attempts, k + 3);
            }
        }
    }

    /// The time that a hook is told is what the clock shows when it is told.
    /// `before_all` is told the first reading; `before_attempt` and
    /// `after_attempt` are told those of their own steps; `after_all` is told the
    /// one that `after_attempt` was told last, or, where retries are exhausted,
    /// that of its own step.
    pub proof fn law_told_times_are_clock_readings(self, attempts: nat)
        requires
            1 <= attempts <= self.delays.len() + 1,
            attempts <= u32::MAX,
            forall|a: nat|
                1 <= a < attempts ==> (#[trigger] (self.outcomes)(a) matches Err(
                    RetryError::Transient(_),
                )),
            attempts == self.delays.len() + 1 || !((self.outcomes)(attempts) matches Err(
                RetryError::Transient(_),
            )),
        ensures
            self.action(0) matches Action::BeforeAll(info) && info.attempt == 1
                && info.total_elapsed == (self.clock)(0),
            forall|a: nat|
                1 <= a <= attempts ==> {
                    &&& #[trigger] self.action((4 * a - 3) as nat) matches Action::BeforeAttempt(
                        info,
                    ) && info.attempt == a && info.total_elapsed == (self.clock)(
                        (4 * a - 3) as nat,
                    )
                    &&& self.action((4 * a - 1) as nat) matches Action::AfterAttempt(info)
                        && info.attempt == a && info.total_elapsed == (self.clock)(
                        (4 * a - 1) as nat,
                    )
                },
            self.action(4 * attempts) matches Action::AfterAll(info) && {
                &&& info.attempt == attempts
                &&& info.success == ((self.outcomes)(attempts) is Ok)
                &&& info.next_delay is None
                &&& info.total_elapsed == (if (self.outcomes)(attempts) matches Err(
                    RetryError::Transient(_),
                ) {
                    (self.clock)(4 * attempts)
                } else {
                    (self.clock)((4 * attempts - 1) as nat)
                })
            },
    {
        assert forall|a: nat| 1 <= a < attempts implies retryable(#[trigger] (self.outcomes)(a)) by {
            assert((self.outcomes)(a) matches Err(RetryError::Transient(_)));
        }
        self.lemma_action(attempts, 0);
        self.lemma_ending(attempts);
        assert forall|a: nat| 1 <= a <= attempts implies {
            &&& #[trigger] self.action((4 * a - 3) as nat) matches Action::BeforeAttempt(info)
                && info.attempt == a && info.total_elapsed == (self.clock)((4 * a - 3) as nat)
            &&& self.action((4 * a - 1) as nat) matches Action::AfterAttempt(info) && info.attempt
                == a && info.total_elapsed == (self.clock)((4 * a - 1) as nat)
        } by {
            self.lemma_round(a);
        }
    }

    /// Elapsed time covers the sleeps: on a clock that never goes back, and on
    /// which each sleep takes at least as long as was asked for, the time told
    /// before an attempt is at least the sum of the delays before it. This holds
    /// in any unit of time.
    pub proof fn law_elapsed_covers_delays(
        self,
        attempts: nat,
        units: spec_fn(Duration) -> nat,
        attempt: nat,
    )
        requires
            self.takes(attempts),
            attempts <= u32::MAX,
            1 <= attempt <= attempts,
            forall|i: nat, j: nat|
                i <= j < Self::steps(attempts) ==> #[trigger] units((self.clock)(i))
                    <= #[trigger] units((self.clock)(j)),
            forall|n: nat, delay: Duration|
                n < Self::steps(attempts) && #[trigger] self.action(n) == Action::<T, E>::Sleep(
                    delay,
                ) ==> units((self.clock)(n + 1)) >= units((self.clock)(n)) + #[trigger] units(
                    delay,
                ),
        ensures
            self.trace(Self::steps(attempts))[4 * attempt - 3] matches Action::BeforeAttempt(info)
                && info.attempt == attempt && units(info.total_elapsed) >= total(
                self.delays.take(attempt - 1),
                units,
            ),
        decreases attempt,
    {
        self.lemma_round(attempt);
        if attempt > 1 {
            let p = (attempt - 1) as nat;
            self.law_elapsed_covers_delays(attempts, units, p);
            self.lemma_round(p);
            self.lemma_sleep(p);
            let n = (4 * p - 3) as nat;
            assert(units((self.clock)(n)) <= units((self.clock)(4 * p)));
            assert(4 * p + 1 == 4 * attempt - 3);
            assert(self.action(4 * p) == Action::<T, E>::Sleep(self.delays[p - 1]));
            assert(units((self.clock)(4 * p + 1)) >= units((self.clock)(4 * p)) + units(
                self.delays[p - 1],
            ));
            assert(self.delays.take(p as int).drop_last() =~= self.delays.take(p - 1));
        }
    }

    /// The same in milliseconds: where the delays are given numbers of
    /// milliseconds, as those of a builder are, the time told before an attempt
    /// is at least the sum of the numbers before it.
    pub proof fn law_elapsed_covers_millis(self, attempts: nat, millis: Seq<u64>, attempt: nat)
        requires
            self.takes(attempts),
            attempts <= u32::MAX,
            1 <= attempt <= attempts,
            are_millis(self.delays, millis),
            forall|i: nat, j: nat|
                i <= j < Self::steps(attempts) ==> #[trigger] nanos_of((self.clock)(i))
                    <= #[trigger] nanos_of((self.clock)(j)),
            forall|n: nat, delay: Duration|
                n < Self::steps(attempts) && #[trigger] self.action(n) == Action::<T, E>::Sleep(
                    delay,
                ) ==> nanos_of((self.clock)(n + 1)) >= nanos_of((self.clock)(n))
                    + #[trigger] nanos_of(delay),
        ensures
            self.trace(Self::steps(attempts))[4 * attempt - 3] matches Action::BeforeAttempt(info)
                && info.attempt == attempt && nanos_of(info.total_elapsed) >= 1_000_000
                * total_millis(millis.take(attempt - 1)),
    {
        let units = |duration: Duration| nanos_of(duration);
        assert forall|i: nat, j: nat| i <= j < Self::steps(attempts) implies #[trigger] units(
            (self.clock)(i),
        ) <= #[trigger] units((self.clock)(j)) by {
            assert(nanos_of((self.clock)(i)) <= nanos_of((self.clock)(j)));
        }
        assert forall|n: nat, delay: Duration|
            n < Self::steps(attempts) && #[trigger] self.action(n) == Action::<T, E>::Sleep(
                delay,
            ) implies units((self.clock)(n + 1)) >= units((self.clock)(n)) + #[trigger] units(
            delay,
        ) by {
            assert(nanos_of((self.clock)(n + 1)) >= nanos_of((self.clock)(n)) + nanos_of(delay));
        }
        self.law_elapsed_covers_delays(attempts, units, attempt);
        lemma_total_of_millis(self.delays.take(attempt - 1), millis.take(attempt - 1));
    }
}

/// The last of some actions, and no other, is to return.
pub open spec fn ends_with_return<T, E>(actions: Seq<Action<T, E>>) -> bool {
    &&& actions.len() > 0
    &&& actions.last() is Return
    &&& forall|k: int| 0 <= k < actions.len() - 1 ==> (#[trigger] actions[k]) !is Return
}

/// The sum of some delays, in some unit of time.
pub open spec fn total(delays: Seq<Duration>, units: spec_fn(Duration) -> nat) -> nat
    decreases delays.len(),
{
    if delays.len() == 0 {
        0
    } else {
        total(delays.drop_last(), units) + units(delays.last())
    }
}

/// The sum of some numbers of milliseconds.
pub open spec fn total_millis(millis: Seq<u64>) -> nat
    decreases millis.len(),
{
    if millis.len() == 0 {
        0
    } else {
        total_millis(millis.drop_last()) + millis.last() as nat
    }
}

/// Milliseconds add up as nanoseconds do.
proof fn lemma_total_of_millis(delays: Seq<Duration>, millis: Seq<u64>)
    requires
        delays.len() == millis.len(),
        forall|i: int|
            0 <= i < millis.len() ==> nanos_of(#[trigger] delays[i]) == millis[i] * 1_000_000,
    ensures
        total(delays, |duration: Duration| nanos_of(duration)) == 1_000_000 * total_millis(millis),
    decreases millis.len(),
{
    if millis.len() > 0 {
        lemma_total_of_millis(delays.drop_last(), millis.drop_last());
        assert(delays.last() == delays[millis.len() - 1]);
    }
}

/// A builder keeps its delays as they were given: nothing is clamped, rounded,
/// sorted or dropped. Unequal slices give unequal delays, equal slices give
/// equal ones, and two slices joined give the delays of both, joined.
pub proof fn law_delays_are_kept(
    a: Seq<u64>,
    b: Seq<u64>,
    delays_a: Seq<Duration>,
    delays_b: Seq<Duration>,
    delays_joined: Seq<Duration>,
)
    requires
        are_millis(delays_a, a),
        are_millis(delays_b, b),
        are_millis(delays_joined, a + b),
    ensures
        delays_a == delays_b <==> a == b,
        delays_joined == delays_a + delays_b,
{
    if delays_a == delays_b {
        assert(a.len() == b.len());
        assert forall|i: int| 0 <= i < a.len() implies a[i] == b[i] by {
            assert(nanos_of(delays_a[i]) == nanos_of(delays_b[i]));
        }
        assert(a =~= b);
    }
    assert(delays_joined =~= delays_a + delays_b);
}

/// Classifying an error keeps the error, and its message begins with the
/// classification; stripping an outcome keeps its value or its error; and only a
/// transient error can be retried.
pub proof fn law_classification<T, E>(value: T, error: E)
    ensures
        RetryError::Transient(error).inner() == error,
        RetryError::Permanent(error).inner() == error,
        RetryError::Transient(error).label() == "transient error: "@,
        RetryError::Permanent(error).label() == "permanent error: "@,
        stripped::<T, E>(Ok(value)) == Ok::<T, E>(value),
        stripped::<T, E>(Err(RetryError::Transient(error))) == Err::<T, E>(error),
        stripped::<T, E>(Err(RetryError::Permanent(error))) == Err::<T, E>(error),
        retryable::<T, E>(Err(RetryError::Transient(error))),
        !retryable::<T, E>(Err(RetryError::Permanent(error))),
        !retryable::<T, E>(Ok(value)),
{
}

/// A finished call accepts no event: nothing comes after its result.
pub proof fn law_finished_is_final<T, E>(event: Event<T, E>)
    ensures
        !(Stage::<T, E>::Finished).accepts(event),
{
}

/// A call never leaves the stages that fit its delays: an attempt is never
/// numbered higher than one more than there are delays.
pub proof fn law_stages_fit_delays<T, E>(
    stage: Stage<T, E>,
    delays: Seq<Duration>,
    event: Event<T, E>,
    elapsed: Duration,
)
    requires
        stage.wf(delays),
        stage.accepts(event),
    ensures
        stage.next(delays, event, elapsed).0.wf(delays),
{
}

/// Of two hooks registered for the same place, the last one stays.
pub proof fn law_last_hook_stays<F, A, B, C, D, G, H>(
    builder: RetryView<F, A, B, C, D>,
    first: G,
    second: H,
)
    ensures
        builder.with_before_all(first).with_before_all(second) == builder.with_before_all(second),
        builder.with_after_all(first).with_after_all(second) == builder.with_after_all(second),
        builder.with_before_attempt(first).with_before_attempt(second)
            == builder.with_before_attempt(second),
        builder.with_after_attempt(first).with_after_attempt(second)
            == builder.with_after_attempt(second),
{
}

/// Hooks for different places may be registered in any order.
pub proof fn law_hooks_register_in_any_order<F, A, B, C, D, G, H>(
    builder: RetryView<F, A, B, C, D>,
    first: G,
    second: H,
)
    ensures
        builder.with_before_all(first).with_after_all(second)
            == builder.with_after_all(second).with_before_all(first),
        builder.with_before_all(first).with_before_attempt(second)
            == builder.with_before_attempt(second).with_before_all(first),
        builder.with_before_all(first).with_after_attempt(second)
            == builder.with_after_attempt(second).with_before_all(first),
        builder.with_after_all(first).with_before_attempt(second)
            == builder.with_before_attempt(second).with_after_all(first),
        builder.with_after_all(first).with_after_attempt(second)
            == builder.with_after_attempt(second).with_after_all(first),
        builder.with_before_attempt(first).with_after_attempt(second)
            == builder.with_after_attempt(second).with_before_attempt(first),
{
}

} // verus!
