//! What is trusted of the clock: `tokio`'s instants and `std`'s durations.

use std::time::Duration;
use tokio::time::Instant;
use vstd::prelude::*;

verus! {

/// A `tokio::time::Instant`, carried through but never looked into.
#[verifier::external_type_specification]
#[verifier::external_body]
pub struct ExInstant(Instant);

/// `tokio::time::Instant::now` reads the clock (the paused one, where the
/// current runtime has paused it). Nothing is claimed of the reading: it differs
/// from one call to the next.
pub assume_specification[ Instant::now ]() -> (now: Instant);

/// `tokio::time::Instant::elapsed` reads the clock again and gives the time
/// passed since the instant, or zero if the instant lies in the future. Nothing
/// is claimed of the reading: it differs from one call to the next.
pub assume_specification[ Instant::elapsed ](start: &Instant) -> (elapsed: Duration);

/// The instant was read on the clock as the present one.
pub open spec fn is_now(start: Instant) -> bool {
    call_ensures(Instant::now, (), start)
}

/// The duration was read on the clock as the time passed since the instant.
pub open spec fn shows(start: Instant, elapsed: Duration) -> bool {
    call_ensures(Instant::elapsed, (&start,), elapsed)
}

/// The duration of so many milliseconds.
pub uninterp spec fn duration_of_millis(millis: u64) -> Duration;

/// How long a duration is, in nanoseconds: the number that
/// `std::time::Duration::as_nanos` stands for.
pub uninterp spec fn nanos_of(duration: Duration) -> nat;

/// `std::time::Duration::from_millis` makes the duration of the given number
/// of milliseconds: the same number gives the same duration, which is a million
/// times as many nanoseconds long. It is defined for every `u64`.
pub assume_specification[ Duration::from_millis ](millis: u64) -> (duration: Duration)
    ensures
        duration == duration_of_millis(millis),
        nanos_of(duration) == millis * 1_000_000,
;

/// The delays are these numbers of milliseconds, one for one and in order.
pub open spec fn are_millis(delays: Seq<Duration>, millis: Seq<u64>) -> bool {
    &&& delays == millis.map_values(|ms: u64| duration_of_millis(ms))
    &&& forall|i: int|
        0 <= i < millis.len() ==> nanos_of(#[trigger] delays[i]) == millis[i] * 1_000_000
}

} // verus!
