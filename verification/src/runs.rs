//! What any run of a call does, told from what its driver sees.
//!
//! A run is what a driver has in hand: the calls it got back from one step to
//! the next, the events it reported, what the clock showed, and the actions it
//! was asked for. The laws here say what the actions are in terms of the delays
//! that were given, the outcomes that were reported and the readings of the
//! clock, field by field. They hold of runs that are still under way as well as
//! of those that have come to their result.

use std::time::Duration;
use tokio::time::Instant;
use vstd::prelude::*;

use crate::builder::RetryView;
use crate::call::{Action, Call, Event, Stage};
use crate::clock::nanos_of;
use crate::error::RetryError;
use crate::hooks::{Hook, Hooks, NoHook};
use crate::info::{AfterAttemptInfo, BeforeAttemptInfo};

verus! {

/// A run of a fresh call: its driver reports an outcome exactly when it was just
/// asked to operate, takes no step after it was asked to return, and sleeps
/// after no attempt whose number is the last one there is.
spec fn is_run<T, E>(
    calls: Seq<Call<T, E>>,
    events: Seq<Event<T, E>>,
    readings: Seq<Duration>,
    actions: Seq<Action<T, E>>,
) -> bool {
    &&& calls.len() == actions.len() + 1
    &&& events.len() == actions.len()
    &&& readings.len() == actions.len()
    &&& calls[0].stage() == Stage::<T, E>::Created
    &&& forall|i: int, j: int|
        0 <= i < actions.len() && j == i + 1 ==> calls[i].leads_to(
            events[i],
            readings[i],
            #[trigger] calls[j],
            #[trigger] actions[i],
        )
    &&& actions.len() > 0 ==> events[0] is Resume
    &&& forall|i: int, j: int|
        0 <= i && j == i + 1 && j < actions.len() ==> ((#[trigger] events[j] is Completed) <==> (
        #[trigger] actions[i] is Operate))
    &&& forall|i: int| 0 <= i < actions.len() - 1 ==> !(#[trigger] actions[i] is Return)
    &&& forall|i: int|
        0 <= i < actions.len() && (#[trigger] actions[i] is Sleep) ==> i < 4 * u32::MAX
}

/// The outcome reported at step `j` calls for another attempt.
spec fn goes_on<T, E>(delays: Seq<Duration>, events: Seq<Event<T, E>>, j: int) -> bool {
    events[j] matches Event::Completed(Err(RetryError::Transient(_))) && j / 4 < delays.len()
}

/// The stage before step `k` of a run.
spec fn stage_fits<T, E>(
    delays: Seq<Duration>,
    events: Seq<Event<T, E>>,
    readings: Seq<Duration>,
    stage: Stage<T, E>,
    k: int,
) -> bool {
    let number = k / 4 + 1;
    if k == 0 {
        stage == Stage::<T, E>::Created
    } else if k == 1 {
        stage == Stage::<T, E>::Opened
    } else if k % 4 == 1 {
        if goes_on(delays, events, k - 2) {
            stage == (Stage::<T, E>::Sleeping { attempt: (number - 1) as u32 }) && number
                <= u32::MAX && number <= delays.len() + 1
        } else {
            stage == (Stage::<T, E>::Closed {
                result: match events[k - 2]->Completed_0 {
                    Ok(value) => Ok(value),
                    Err(RetryError::Transient(error)) => Err(error),
                    Err(RetryError::Permanent(error)) => Err(error),
                },
            })
        }
    } else if k % 4 == 2 {
        if k == 2 || goes_on(delays, events, k - 3) {
            stage == (Stage::<T, E>::Announced { attempt: number as u32 }) && number <= u32::MAX
                && number <= delays.len() + 1
        } else {
            stage == Stage::<T, E>::Finished
        }
    } else if k % 4 == 3 {
        stage == (Stage::<T, E>::Running { attempt: number as u32 }) && number <= u32::MAX
            && number <= delays.len() + 1
    } else {
        &&& number - 1 <= u32::MAX
        &&& number - 1 <= delays.len() + 1
        &&& events[k - 1] is Completed
        &&& match events[k - 1]->Completed_0 {
            Ok(value) => stage == (Stage::<T, E>::Settled {
                attempt: (number - 1) as u32,
                elapsed: readings[k - 1],
                result: Ok(value),
            }),
            Err(RetryError::Permanent(error)) => stage == (Stage::<T, E>::Settled {
                attempt: (number - 1) as u32,
                elapsed: readings[k - 1],
                result: Err(error),
            }),
            Err(RetryError::Transient(error)) => stage == (Stage::<T, E>::Failed {
                attempt: (number - 1) as u32,
                error,
            }),
        }
    }
}

/// The action at step `k` of a run.
spec fn action_fits<T, E>(
    delays: Seq<Duration>,
    events: Seq<Event<T, E>>,
    readings: Seq<Duration>,
    actions: Seq<Action<T, E>>,
    k: int,
) -> bool {
    match actions[k] {
        Action::BeforeAll(info) => {
            &&& k == 0
            &&& info.attempt == 1
            &&& info.total_elapsed == readings[0]
            &&& info.next_delay == (if delays.len() > 0 {
                Some(delays[0])
            } else {
                None
            })
        },
        Action::BeforeAttempt(info) => {
            &&& k % 4 == 1
            &&& k == 1 || goes_on(delays, events, k - 2)
            &&& info.attempt == k / 4 + 1
            &&& info.total_elapsed == readings[k]
            &&& info.next_delay == (if k / 4 < delays.len() {
                Some(delays[k / 4])
            } else {
                None
            })
        },
        Action::Operate => k % 4 == 2,
        Action::AfterAttempt(info) => {
            &&& k % 4 == 3
            &&& events[k] is Completed
            &&& info.attempt == k / 4 + 1
            &&& info.success == (events[k]->Completed_0 is Ok)
            &&& info.total_elapsed == readings[k]
            &&& info.next_delay == (if goes_on(delays, events, k) {
                Some(delays[k / 4])
            } else {
                None
            })
        },
        Action::Sleep(delay) => {
            &&& k % 4 == 0
            &&& k > 0
            &&& goes_on(delays, events, k - 1)
            &&& delay == delays[k / 4 - 1]
        },
        Action::AfterAll(info) => {
            &&& k % 4 == 0
            &&& k > 0
            &&& !goes_on(delays, events, k - 1)
            &&& info.attempt == k / 4
            &&& info.success == (events[k - 1]->Completed_0 is Ok)
            &&& info.next_delay is None
            &&& info.total_elapsed == (if events[k - 1] matches Event::Completed(
                Err(RetryError::Transient(_)),
            ) {
                readings[k]
            } else {
                readings[k - 1]
            })
        },
        Action::Return(result) => {
            &&& k % 4 == 1
            &&& k > 1
            &&& !goes_on(delays, events, k - 2)
            &&& result == (match events[k - 2]->Completed_0 {
                Ok(value) => Ok::<T, E>(value),
                Err(RetryError::Transient(error)) => Err(error),
                Err(RetryError::Permanent(error)) => Err(error),
            })
        },
    }
}

/// Every step of a run fits, up to step `k`.
proof fn lemma_run<T, E>(
    calls: Seq<Call<T, E>>,
    events: Seq<Event<T, E>>,
    readings: Seq<Duration>,
    actions: Seq<Action<T, E>>,
    k: int,
)
    requires
        is_run(calls, events, readings, actions),
        0 <= k <= actions.len(),
    ensures
        calls[k].delays() == calls[0].delays(),
        calls[k].start() == calls[0].start(),
        stage_fits(calls[0].delays(), events, readings, calls[k].stage(), k),
        k > 0 ==> action_fits(calls[0].delays(), events, readings, actions, k - 1),
        k > 0 ==> calls[k - 1].stage().accepts(events[k - 1]),
    decreases k,
{
    if k > 0 {
        let p = k - 1;
        let delays = calls[0].delays();
        lemma_run(calls, events, readings, actions, p);
        assert(calls[p].leads_to(events[p], readings[p], calls[k], actions[p]));
        if p > 0 {
            assert((events[p] is Completed) <==> (actions[p - 1] is Operate));
            assert(!(actions[p - 1] is Return));
        }
    }
}

/// What a run asks for, step by step. `before_all` comes first and is told
/// attempt 1 and what the clock shows. Each attempt is announced with its number,
/// what the clock shows and the delay scheduled after it; then the operation
/// runs; then `after_attempt` is told of the outcome, what the clock shows and
/// the delay that is about to be slept. That delay is slept if the outcome was a
/// transient error and a delay is left. If not, `after_all` is told, with the
/// time told after the last attempt, or what the clock shows if retries are
/// exhausted; and the outcome is returned, without its classification. Delays
/// and start stay as they are, and each report of the driver is accepted.
pub proof fn law_run<T, E>(
    calls: Seq<Call<T, E>>,
    events: Seq<Event<T, E>>,
    readings: Seq<Duration>,
    actions: Seq<Action<T, E>>,
)
    requires
        calls.len() == actions.len() + 1,
        events.len() == actions.len(),
        readings.len() == actions.len(),
        calls[0].stage() == Stage::<T, E>::Created,
        forall|i: int, j: int|
            0 <= i < actions.len() && j == i + 1 ==> calls[i].leads_to(
                events[i],
                readings[i],
                #[trigger] calls[j],
                #[trigger] actions[i],
            ),
        actions.len() > 0 ==> events[0] is Resume,
        forall|i: int, j: int|
            0 <= i && j == i + 1 && j < actions.len() ==> ((#[trigger] events[j] is Completed)
                <==> (#[trigger] actions[i] is Operate)),
        forall|i: int| 0 <= i < actions.len() - 1 ==> !(#[trigger] actions[i] is Return),
        forall|i: int|
            0 <= i < actions.len() && (#[trigger] actions[i] is Sleep) ==> i < 4 * u32::MAX,
    ensures
        forall|k: int|
            0 <= k < calls.len() ==> (#[trigger] calls[k]).delays() == calls[0].delays()
                && calls[k].start() == calls[0].start(),
        forall|k: int|
            0 <= k < actions.len() ==> calls[k].stage().accepts(#[trigger] events[k]),
        ({
            let delays = calls[0].delays();
            forall|k: int|
                #![trigger actions[k]]
                0 <= k < actions.len() ==> match actions[k] {
                    Action::BeforeAll(info) => {
                        &&& k == 0
                        &&& info.attempt == 1
                        &&& info.total_elapsed == readings[0]
                        &&& info.next_delay == (if delays.len() > 0 {
                            Some(delays[0])
                        } else {
                            None
                        })
                    },
                    Action::BeforeAttempt(info) => {
                        &&& k % 4 == 1
                        &&& k == 1 || ((events[k - 2] matches Event::Completed(
                            Err(RetryError::Transient(_)),
                        )) && k / 4 <= delays.len())
                        &&& info.attempt == k / 4 + 1
                        &&& info.total_elapsed == readings[k]
                        &&& info.next_delay == (if k / 4 < delays.len() {
                            Some(delays[k / 4])
                        } else {
                            None
                        })
                    },
                    Action::Operate => k % 4 == 2,
                    Action::AfterAttempt(info) => {
                        &&& k % 4 == 3
                        &&& events[k] is Completed
                        &&& info.attempt == k / 4 + 1
                        &&& info.success == (events[k] matches Event::Completed(Ok(_)))
                        &&& info.total_elapsed == readings[k]
                        &&& info.next_delay == (if (events[k] matches Event::Completed(
                            Err(RetryError::Transient(_)),
                        )) && k / 4 < delays.len() {
                            Some(delays[k / 4])
                        } else {
                            None
                        })
                    },
                    Action::Sleep(delay) => {
                        &&& k % 4 == 0
                        &&& 0 < k / 4 <= delays.len()
                        &&& events[k - 1] matches Event::Completed(Err(RetryError::Transient(_)))
                        &&& delay == delays[k / 4 - 1]
                    },
                    Action::AfterAll(info) => {
                        &&& k % 4 == 0
                        &&& 0 < k / 4 <= delays.len() + 1
                        &&& (events[k - 1] matches Event::Completed(Err(RetryError::Transient(_))))
                            ==> k / 4 == delays.len() + 1
                        &&& info.attempt == k / 4
                        &&& info.success == (events[k - 1] matches Event::Completed(Ok(_)))
                        &&& info.next_delay is None
                        &&& info.total_elapsed == (if events[k - 1] matches Event::Completed(
                            Err(RetryError::Transient(_)),
                        ) {
                            readings[k]
                        } else {
                            readings[k - 1]
                        })
                    },
                    Action::Return(result) => {
                        &&& k % 4 == 1
                        &&& 0 < k / 4 <= delays.len() + 1
                        &&& match events[k - 2] {
                            Event::Completed(Ok(value)) => result == Ok::<T, E>(value),
                            Event::Completed(Err(RetryError::Permanent(error))) => result == Err::<
                                T,
                                E,
                            >(error),
                            Event::Completed(Err(RetryError::Transient(error))) => result == Err::<
                                T,
                                E,
                            >(error) && k / 4 == delays.len() + 1,
                            Event::Resume => false,
                        }
                    },
                }
        }),
{
    assert(is_run(calls, events, readings, actions));
    assert forall|k: int| 0 <= k < calls.len() implies (#[trigger] calls[k]).delays()
        == calls[0].delays() && calls[k].start() == calls[0].start() by {
        lemma_run(calls, events, readings, actions, k);
    }
    assert forall|k: int| 0 <= k < actions.len() implies calls[k].stage().accepts(
        #[trigger] events[k],
    ) by {
        lemma_run(calls, events, readings, actions, k + 1);
    }
    assert forall|k: int| 0 <= k < actions.len() implies #[trigger] step_fits(
        calls,
        events,
        readings,
        actions,
        k,
    ) by {
        lemma_run(calls, events, readings, actions, k);
        lemma_run(calls, events, readings, actions, k + 1);
        if k > 0 {
            lemma_run(calls, events, readings, actions, k - 1);
        }
    }
    assert forall|k: int| #![trigger actions[k]] 0 <= k < actions.len() implies step_fits(
        calls,
        events,
        readings,
        actions,
        k,
    ) by {
    }
}

/// The action and the stage at step `k` of a run fit.
spec fn step_fits<T, E>(
    calls: Seq<Call<T, E>>,
    events: Seq<Event<T, E>>,
    readings: Seq<Duration>,
    actions: Seq<Action<T, E>>,
    k: int,
) -> bool {
    &&& action_fits(calls[0].delays(), events, readings, actions, k)
    &&& stage_fits(calls[0].delays(), events, readings, calls[k].stage(), k)
    &&& k > 0 ==> stage_fits(calls[0].delays(), events, readings, calls[k - 1].stage(), k - 1)
}

/// A run that has been asked to return has made some number of attempts, at
/// least one and at most one more than there are delays. All but the last of
/// them ended in a transient error; the last one did not, or had no delay left
/// after it. What is returned is its outcome, without the classification. No run
/// is longer than that.
pub proof fn law_run_ends<T, E>(
    calls: Seq<Call<T, E>>,
    events: Seq<Event<T, E>>,
    readings: Seq<Duration>,
    actions: Seq<Action<T, E>>,
)
    requires
        calls.len() == actions.len() + 1,
        events.len() == actions.len(),
        readings.len() == actions.len(),
        calls[0].stage() == Stage::<T, E>::Created,
        forall|i: int, j: int|
            0 <= i < actions.len() && j == i + 1 ==> calls[i].leads_to(
                events[i],
                readings[i],
                #[trigger] calls[j],
                #[trigger] actions[i],
            ),
        actions.len() > 0 ==> events[0] is Resume,
        forall|i: int, j: int|
            0 <= i && j == i + 1 && j < actions.len() ==> ((#[trigger] events[j] is Completed)
                <==> (#[trigger] actions[i] is Operate)),
        forall|i: int| 0 <= i < actions.len() - 1 ==> !(#[trigger] actions[i] is Return),
        forall|i: int|
            0 <= i < actions.len() && (#[trigger] actions[i] is Sleep) ==> i < 4 * u32::MAX,
    ensures
        actions.len() <= 4 * (calls[0].delays().len() + 1) + 2,
        actions.len() > 0 && actions.last() is Return ==> {
            let attempts = (actions.len() - 2) / 4;
            &&& actions.len() == 4 * attempts + 2
            &&& 1 <= attempts <= calls[0].delays().len() + 1
            &&& forall|a: int|
                #![trigger events[4 * a - 1]]
                1 <= a < attempts ==> (events[4 * a - 1] matches Event::Completed(
                    Err(RetryError::Transient(_)),
                ))
            &&& match events[4 * attempts - 1] {
                Event::Completed(Ok(value)) => actions.last() == Action::<T, E>::Return(Ok(value)),
                Event::Completed(Err(RetryError::Permanent(error))) => actions.last()
                    == Action::<T, E>::Return(Err(error)),
                Event::Completed(Err(RetryError::Transient(error))) => actions.last()
                    == Action::<T, E>::Return(Err(error)) && attempts == calls[0].delays().len()
                    + 1,
                Event::Resume => false,
            }
        },
{
    assert(is_run(calls, events, readings, actions));
    let len = actions.len() as int;
    let most = 4 * (calls[0].delays().len() + 1) + 2int;
    if len > most {
        lemma_run(calls, events, readings, actions, most - 1);
        lemma_run(calls, events, readings, actions, most);
        assert(actions[most - 1] is Return);
    }
    if len > 0 && actions.last() is Return {
        lemma_run(calls, events, readings, actions, len);
        lemma_run(calls, events, readings, actions, len - 1);
        lemma_run(calls, events, readings, actions, len - 2);
        let attempts = (len - 2) / 4;
        assert forall|a: int| #![trigger events[4 * a - 1]] 1 <= a < attempts implies (
        events[4 * a - 1] matches Event::Completed(Err(RetryError::Transient(_)))) by {
            lemma_run(calls, events, readings, actions, 4 * a + 1);
            lemma_run(calls, events, readings, actions, 4 * a + 2);
            assert(!(actions[4 * a + 1] is Return));
        }
    }
}

/// From the slice to the sleeps: whatever hooks are registered on a builder made
/// from some milliseconds, in its runs the sleep after attempt `a` lasts as many
/// milliseconds as the slice says at place `a`, every delay that a hook is told
/// of is as long as the slice says, and no attempt comes after all delays are
/// used up.
pub proof fn law_run_sleeps_as_given<T, E, F, A, B, C, D, G, H, I, J>(
    millis: Seq<u64>,
    builder: RetryView<F, A, B, C, D>,
    before_all: G,
    after_all: H,
    before_attempt: I,
    after_attempt: J,
    calls: Seq<Call<T, E>>,
    events: Seq<Event<T, E>>,
    readings: Seq<Duration>,
    actions: Seq<Action<T, E>>,
)
    requires
        builder.delays.len() == millis.len(),
        forall|i: int|
            0 <= i < millis.len() ==> nanos_of(#[trigger] builder.delays[i]) == millis[i]
                * 1_000_000,
        calls[0].delays() == builder.with_before_all(before_all).with_after_all(
            after_all,
        ).with_before_attempt(before_attempt).with_after_attempt(after_attempt).delays,
        calls.len() == actions.len() + 1,
        events.len() == actions.len(),
        readings.len() == actions.len(),
        calls[0].stage() == Stage::<T, E>::Created,
        forall|i: int, j: int|
            0 <= i < actions.len() && j == i + 1 ==> calls[i].leads_to(
                events[i],
                readings[i],
                #[trigger] calls[j],
                #[trigger] actions[i],
            ),
        actions.len() > 0 ==> events[0] is Resume,
        forall|i: int, j: int|
            0 <= i && j == i + 1 && j < actions.len() ==> ((#[trigger] events[j] is Completed)
                <==> (#[trigger] actions[i] is Operate)),
        forall|i: int| 0 <= i < actions.len() - 1 ==> !(#[trigger] actions[i] is Return),
        forall|i: int|
            0 <= i < actions.len() && (#[trigger] actions[i] is Sleep) ==> i < 4 * u32::MAX,
    ensures
        forall|k: int|
            #![trigger actions[k]]
            0 <= k < actions.len() ==> match actions[k] {
                Action::Sleep(delay) => {
                    &&& 0 < k / 4 <= millis.len()
                    &&& nanos_of(delay) == millis[k / 4 - 1] * 1_000_000
                },
                Action::BeforeAll(info) => {
                    &&& info.next_delay is Some <==> millis.len() > 0
                    &&& info.next_delay matches Some(delay) ==> nanos_of(delay) == millis[0]
                        * 1_000_000
                },
                Action::BeforeAttempt(info) => {
                    &&& info.attempt <= millis.len() + 1
                    &&& info.next_delay is Some <==> info.attempt <= millis.len()
                    &&& info.next_delay matches Some(delay) ==> nanos_of(delay)
                        == millis[info.attempt - 1] * 1_000_000
                },
                Action::AfterAttempt(info) => {
                    &&& info.attempt <= millis.len() + 1
                    &&& info.next_delay is Some <==> (events[k] matches Event::Completed(
                        Err(RetryError::Transient(_)),
                    )) && info.attempt <= millis.len()
                    &&& info.next_delay matches Some(delay) ==> nanos_of(delay)
                        == millis[info.attempt - 1] * 1_000_000
                },
                Action::AfterAll(info) => 1 <= info.attempt <= millis.len() + 1,
                Action::Operate => k / 4 <= millis.len(),
                Action::Return(_) => k / 4 <= millis.len() + 1,
            },
        actions.len() <= 4 * (millis.len() + 1) + 2,
{
    law_registering_changes_one_hook(builder, before_all);
    let first = builder.with_before_all(before_all);
    law_registering_changes_one_hook(first, after_all);
    let second = first.with_after_all(after_all);
    law_registering_changes_one_hook(second, before_attempt);
    let third = second.with_before_attempt(before_attempt);
    law_registering_changes_one_hook(third, after_attempt);
    let delays = builder.delays;
    assert(calls[0].delays() == delays);
    law_run_ends(calls, events, readings, actions);
    assert(is_run(calls, events, readings, actions));
    assert forall|k: int| 0 <= k < actions.len() implies #[trigger] step_fits(
        calls,
        events,
        readings,
        actions,
        k,
    ) by {
        lemma_run(calls, events, readings, actions, k);
        lemma_run(calls, events, readings, actions, k + 1);
        if k > 0 {
            lemma_run(calls, events, readings, actions, k - 1);
        }
    }
    assert forall|k: int| #![trigger actions[k]] 0 <= k < actions.len() implies step_fits(
        calls,
        events,
        readings,
        actions,
        k,
    ) by {
    }
}

/// The times that hooks are told. Each is a reading, on the clock, of the time
/// passed since the start of the call; and on a clock that never goes back they
/// never decrease from one action to the next that tells one.
pub proof fn law_told_times<T, E>(
    calls: Seq<Call<T, E>>,
    events: Seq<Event<T, E>>,
    readings: Seq<Duration>,
    actions: Seq<Action<T, E>>,
)
    requires
        forall|i: int|
            0 <= i < actions.len() ==> call_ensures(
                Instant::elapsed,
                (&calls[i].start(),),
                #[trigger] readings[i],
            ),
        forall|i: int, j: int|
            0 <= i <= j < actions.len() ==> nanos_of(#[trigger] readings[i]) <= nanos_of(
                #[trigger] readings[j],
            ),
        calls.len() == actions.len() + 1,
        events.len() == actions.len(),
        readings.len() == actions.len(),
        calls[0].stage() == Stage::<T, E>::Created,
        forall|i: int, j: int|
            0 <= i < actions.len() && j == i + 1 ==> calls[i].leads_to(
                events[i],
                readings[i],
                #[trigger] calls[j],
                #[trigger] actions[i],
            ),
        actions.len() > 0 ==> events[0] is Resume,
        forall|i: int, j: int|
            0 <= i && j == i + 1 && j < actions.len() ==> ((#[trigger] events[j] is Completed)
                <==> (#[trigger] actions[i] is Operate)),
        forall|i: int| 0 <= i < actions.len() - 1 ==> !(#[trigger] actions[i] is Return),
        forall|i: int|
            0 <= i < actions.len() && (#[trigger] actions[i] is Sleep) ==> i < 4 * u32::MAX,
    ensures
        ({
            let told = |action: Action<T, E>|
                match action {
                    Action::BeforeAll(info) => Some(info.total_elapsed),
                    Action::BeforeAttempt(info) => Some(info.total_elapsed),
                    Action::AfterAttempt(info) => Some(info.total_elapsed),
                    Action::AfterAll(info) => Some(info.total_elapsed),
                    _ => None,
                };
            &&& forall|k: int|
                0 <= k < actions.len() ==> (told(#[trigger] actions[k]) matches Some(time)
                    ==> call_ensures(Instant::elapsed, (&calls[0].start(),), time))
            &&& forall|i: int, j: int|
                0 <= i <= j < actions.len() ==> (told(#[trigger] actions[i]) matches Some(earlier)
                    ==> (told(#[trigger] actions[j]) matches Some(later) ==> nanos_of(earlier)
                    <= nanos_of(later)))
        }),
{
    assert(is_run(calls, events, readings, actions));
    assert forall|k: int| 0 <= k < actions.len() implies #[trigger] step_fits(
        calls,
        events,
        readings,
        actions,
        k,
    ) && calls[k].start() == calls[0].start() by {
        lemma_run(calls, events, readings, actions, k);
        lemma_run(calls, events, readings, actions, k + 1);
        if k > 0 {
            lemma_run(calls, events, readings, actions, k - 1);
        }
    }
    assert forall|k: int| #![trigger actions[k]] 0 <= k < actions.len() implies step_fits(
        calls,
        events,
        readings,
        actions,
        k,
    ) && call_ensures(Instant::elapsed, (&calls[0].start(),), readings[k]) && (k > 0
        ==> call_ensures(Instant::elapsed, (&calls[0].start(),), readings[k - 1])) by {
        assert(step_fits(calls, events, readings, actions, k));
        if k > 0 {
            assert(step_fits(calls, events, readings, actions, k - 1));
        }
    }
    assert forall|i: int, j: int|
        #![trigger actions[i], actions[j]]
        0 <= i < j < actions.len() implies nanos_of(readings[i]) <= nanos_of(readings[j - 1])
        && nanos_of(readings[i]) <= nanos_of(readings[j]) && (i > 0 ==> nanos_of(readings[i - 1])
        <= nanos_of(readings[j - 1])) by {
    }
}

/// The error of an attempt that is followed by a sleep is held on to from then
/// on, and nothing else changes what is held.
pub proof fn law_run_holds_last_error<T, E>(
    calls: Seq<Call<T, E>>,
    events: Seq<Event<T, E>>,
    readings: Seq<Duration>,
    actions: Seq<Action<T, E>>,
)
    requires
        calls.len() == actions.len() + 1,
        events.len() == actions.len(),
        readings.len() == actions.len(),
        calls[0].stage() == Stage::<T, E>::Created,
        forall|i: int, j: int|
            0 <= i < actions.len() && j == i + 1 ==> calls[i].leads_to(
                events[i],
                readings[i],
                #[trigger] calls[j],
                #[trigger] actions[i],
            ),
        actions.len() > 0 ==> events[0] is Resume,
        forall|i: int, j: int|
            0 <= i && j == i + 1 && j < actions.len() ==> ((#[trigger] events[j] is Completed)
                <==> (#[trigger] actions[i] is Operate)),
        forall|i: int| 0 <= i < actions.len() - 1 ==> !(#[trigger] actions[i] is Return),
        forall|i: int|
            0 <= i < actions.len() && (#[trigger] actions[i] is Sleep) ==> i < 4 * u32::MAX,
    ensures
        forall|i: int, j: int|
            0 <= i < actions.len() && j == i + 1 ==> match #[trigger] actions[i] {
                Action::Sleep(_) => {
                    &&& i > 0
                    &&& events[i - 1] matches Event::Completed(Err(RetryError::Transient(error)))
                    &&& (#[trigger] calls[j]).last_error() == Some(error)
                },
                _ => calls[j].last_error() == calls[i].last_error(),
            },
{
    assert(is_run(calls, events, readings, actions));
    assert forall|i: int, j: int| 0 <= i < actions.len() && j == i + 1 implies match #[trigger]
    actions[i] {
        Action::Sleep(_) => {
            &&& i > 0
            &&& events[i - 1] matches Event::Completed(Err(RetryError::Transient(error)))
            &&& (#[trigger] calls[j]).last_error() == Some(error)
        },
        _ => calls[j].last_error() == calls[i].last_error(),
    } by {
        lemma_run(calls, events, readings, actions, i);
        lemma_run(calls, events, readings, actions, j);
        assert(calls[i].leads_to(events[i], readings[i], calls[j], actions[i]));
    }
}

/// A run depends on the delays, the outcomes and the clock alone: two fresh
/// calls over the same delays that are told the same get the same actions.
pub proof fn law_runs_agree<T, E>(
    calls: Seq<Call<T, E>>,
    others: Seq<Call<T, E>>,
    events: Seq<Event<T, E>>,
    readings: Seq<Duration>,
    actions: Seq<Action<T, E>>,
    other_actions: Seq<Action<T, E>>,
)
    requires
        calls.len() == actions.len() + 1,
        others.len() == calls.len(),
        other_actions.len() == actions.len(),
        calls[0].stage() == Stage::<T, E>::Created,
        others[0].stage() == Stage::<T, E>::Created,
        calls[0].delays() == others[0].delays(),
        forall|i: int, j: int|
            0 <= i < actions.len() && j == i + 1 ==> calls[i].leads_to(
                events[i],
                readings[i],
                #[trigger] calls[j],
                #[trigger] actions[i],
            ),
        forall|i: int, j: int|
            0 <= i < actions.len() && j == i + 1 ==> others[i].leads_to(
                events[i],
                readings[i],
                #[trigger] others[j],
                #[trigger] other_actions[i],
            ),
    ensures
        actions == other_actions,
{
    assert forall|k: int| 0 <= k < actions.len() implies actions[k] == other_actions[k] by {
        lemma_runs_agree(calls, others, events, readings, actions, other_actions, k);
        assert(calls[k].leads_to(events[k], readings[k], calls[k + 1], actions[k]));
        assert(others[k].leads_to(events[k], readings[k], others[k + 1], other_actions[k]));
    }
    assert(actions =~= other_actions);
}

/// Two runs over the same delays that are told the same are at the same stages.
proof fn lemma_runs_agree<T, E>(
    calls: Seq<Call<T, E>>,
    others: Seq<Call<T, E>>,
    events: Seq<Event<T, E>>,
    readings: Seq<Duration>,
    actions: Seq<Action<T, E>>,
    other_actions: Seq<Action<T, E>>,
    k: int,
)
    requires
        0 <= k <= actions.len(),
        calls[0].stage() == others[0].stage(),
        calls[0].delays() == others[0].delays(),
        forall|i: int, j: int|
            0 <= i < actions.len() && j == i + 1 ==> calls[i].leads_to(
                events[i],
                readings[i],
                #[trigger] calls[j],
                #[trigger] actions[i],
            ),
        forall|i: int, j: int|
            0 <= i < actions.len() && j == i + 1 ==> others[i].leads_to(
                events[i],
                readings[i],
                #[trigger] others[j],
                #[trigger] other_actions[i],
            ),
    ensures
        calls[k].stage() == others[k].stage(),
        calls[k].delays() == others[k].delays(),
    decreases k,
{
    if k > 0 {
        let p = k - 1;
        lemma_runs_agree(calls, others, events, readings, actions, other_actions, p);
        assert(calls[p].leads_to(events[p], readings[p], calls[k], actions[p]));
        assert(others[p].leads_to(events[p], readings[p], others[k], other_actions[p]));
    }
}

/// Registering a hook puts that hook in its place and changes nothing else: the
/// delays, the operation and the three other hooks are what they were.
pub proof fn law_registering_changes_one_hook<F, A, B, C, D, H>(
    builder: RetryView<F, A, B, C, D>,
    hook: H,
)
    ensures
        ({
            let after = builder.with_before_all(hook);
            &&& after.delays == builder.delays
            &&& after.operation == builder.operation
            &&& after.hooks.before_all == hook
            &&& after.hooks.after_all == builder.hooks.after_all
            &&& after.hooks.before_attempt == builder.hooks.before_attempt
            &&& after.hooks.after_attempt == builder.hooks.after_attempt
        }),
        ({
            let after = builder.with_after_all(hook);
            &&& after.delays == builder.delays
            &&& after.operation == builder.operation
            &&& after.hooks.before_all == builder.hooks.before_all
            &&& after.hooks.after_all == hook
            &&& after.hooks.before_attempt == builder.hooks.before_attempt
            &&& after.hooks.after_attempt == builder.hooks.after_attempt
        }),
        ({
            let after = builder.with_before_attempt(hook);
            &&& after.delays == builder.delays
            &&& after.operation == builder.operation
            &&& after.hooks.before_all == builder.hooks.before_all
            &&& after.hooks.after_all == builder.hooks.after_all
            &&& after.hooks.before_attempt == hook
            &&& after.hooks.after_attempt == builder.hooks.after_attempt
        }),
        ({
            let after = builder.with_after_attempt(hook);
            &&& after.delays == builder.delays
            &&& after.operation == builder.operation
            &&& after.hooks.before_all == builder.hooks.before_all
            &&& after.hooks.after_all == builder.hooks.after_all
            &&& after.hooks.before_attempt == builder.hooks.before_attempt
            &&& after.hooks.after_attempt == hook
        }),
{
}

/// An action that tells a hook tells the hook it is named after all that it
/// carries, whatever that is; and any hook that can hear it can be told.
pub proof fn law_each_action_reaches_its_hook<T, E, A, B, C, D>(
    hooks: Hooks<A, B, C, D>,
    before: BeforeAttemptInfo,
    after: AfterAttemptInfo,
) where
    A: Hook<BeforeAttemptInfo>,
    B: Hook<AfterAttemptInfo>,
    C: Hook<BeforeAttemptInfo>,
    D: Hook<AfterAttemptInfo>,

    ensures
        hooks.has_heard(Action::<T, E>::BeforeAll(before)) <==> hooks.before_all.has_heard(&before),
        hooks.has_heard(Action::<T, E>::AfterAll(after)) <==> hooks.after_all.has_heard(&after),
        hooks.has_heard(Action::<T, E>::BeforeAttempt(before)) <==> hooks.before_attempt.has_heard(
            &before,
        ),
        hooks.has_heard(Action::<T, E>::AfterAttempt(after)) <==> hooks.after_attempt.has_heard(
            &after,
        ),
        hooks.before_all.can_hear(&before) ==> hooks.can_hear(Action::<T, E>::BeforeAll(before)),
        hooks.after_all.can_hear(&after) ==> hooks.can_hear(Action::<T, E>::AfterAll(after)),
        hooks.before_attempt.can_hear(&before) ==> hooks.can_hear(
            Action::<T, E>::BeforeAttempt(before),
        ),
        hooks.after_attempt.can_hear(&after) ==> hooks.can_hear(
            Action::<T, E>::AfterAttempt(after),
        ),
{
}

/// A closure has heard what it has been called with, and can be told whatever it
/// can be called with. Where no hook was registered, anything can be told.
pub proof fn law_hearing_is_being_called<Info, H: FnMut(&Info)>(hook: H, info: Info)
    ensures
        Hook::<Info>::has_heard(&hook, &info) <==> call_ensures(hook, (&info,), ()),
        Hook::<Info>::can_hear(&hook, &info) <==> call_requires(hook, (&info,)),
        Hook::<Info>::can_hear(&NoHook, &info),
{
}

} // verus!
