use std::time::Duration;

use tokio_retry_simple::{
    retry, Action, AfterAttemptInfo, BeforeAttemptInfo, Call, Event, Hooks, RetryError,
};

type Outcome = Result<&'static str, RetryError<&'static str>>;

fn fresh(delays: &[u64]) -> Call<&'static str, &'static str> {
    let (call, _, _) = retry(delays, ()).call();
    call
}

fn show(action: &Action<&'static str, &'static str>) -> String {
    match action {
        Action::BeforeAll(i) => format!(
            "before_all {} {:?} {:?}",
            i.attempt, i.next_delay, i.total_elapsed
        ),
        Action::BeforeAttempt(i) => format!(
            "before {} {:?} {:?}",
            i.attempt, i.next_delay, i.total_elapsed
        ),
        Action::Operate => format!("operate"),
        Action::AfterAttempt(i) => format!(
            "after {} {} {:?} {:?}",
            i.attempt, i.success, i.next_delay, i.total_elapsed
        ),
        Action::Sleep(delay) => format!("sleep {:?}", delay),
        Action::AfterAll(i) => format!(
            "after_all {} {} {:?} {:?}",
            i.attempt, i.success, i.next_delay, i.total_elapsed
        ),
        Action::Return(result) => format!("return {:?}", result),
    }
}

/// Drives a call over the given outcomes, on a clock that shows as many
/// milliseconds as steps have been taken.
fn script(delays: &[u64], outcomes: Vec<Outcome>) -> Vec<String> {
    let mut call = fresh(delays);
    let mut outcomes = outcomes.into_iter();
    let mut event = Event::Resume;
    let mut shown = Vec::new();
    let mut step = 0;
    loop {
        assert!(call.accepts(&event));
        let (next, action) = call.advance(event, Duration::from_millis(step));
        call = next;
        step += 1;
        shown.push(show(&action));
        event = match action {
            Action::Operate => Event::Completed(outcomes.next().unwrap()),
            Action::Return(_) => break,
            _ => Event::Resume,
        };
    }
    assert!(outcomes.next().is_none());
    assert!(!call.accepts(&Event::Resume));
    assert!(!call.accepts(&Event::Completed(Ok("late"))));
    shown
}

#[test]
fn a_success_after_a_failure_follows_the_script() {
    assert_eq!(
        script(
            &[100, 200],
            vec![Err(RetryError::Transient("no")), Ok("yes")]
        ),
        vec![
            "before_all 1 Some(100ms) 0ns",
            "before 1 Some(100ms) 1ms",
            "operate",
            "after 1 false Some(100ms) 3ms",
            "sleep 100ms",
            "before 2 Some(200ms) 5ms",
            "operate",
            "after 2 true None 7ms",
            "after_all 2 true None 7ms",
            "return Ok(\"yes\")",
        ]
    );
}

#[test]
fn a_permanent_error_ends_the_call_with_the_time_of_the_attempt() {
    assert_eq!(
        script(&[100], vec![Err(RetryError::Permanent("fatal"))]),
        vec![
            "before_all 1 Some(100ms) 0ns",
            "before 1 Some(100ms) 1ms",
            "operate",
            "after 1 false None 3ms",
            "after_all 1 false None 3ms",
            "return Err(\"fatal\")",
        ]
    );
}

#[test]
fn exhaustion_reads_the_clock_again_and_returns_the_last_error() {
    assert_eq!(
        script(
            &[7],
            vec![
                Err(RetryError::Transient("one")),
                Err(RetryError::Transient("two"))
            ]
        ),
        vec![
            "before_all 1 Some(7ms) 0ns",
            "before 1 Some(7ms) 1ms",
            "operate",
            "after 1 false Some(7ms) 3ms",
            "sleep 7ms",
            "before 2 None 5ms",
            "operate",
            "after 2 false None 7ms",
            "after_all 2 false None 8ms",
            "return Err(\"two\")",
        ]
    );
}

#[test]
fn no_delays_mean_a_single_attempt() {
    assert_eq!(
        script(&[], vec![Err(RetryError::Transient("once"))]),
        vec![
            "before_all 1 None 0ns",
            "before 1 None 1ms",
            "operate",
            "after 1 false None 3ms",
            "after_all 1 false None 4ms",
            "return Err(\"once\")",
        ]
    );
}

#[test]
fn a_permanent_error_on_the_last_attempt_is_returned() {
    let shown = script(
        &[1, 2],
        vec![
            Err(RetryError::Transient("a")),
            Err(RetryError::Transient("b")),
            Err(RetryError::Permanent("c")),
        ],
    );
    assert_eq!(shown.len(), 14);
    assert_eq!(shown[13], "return Err(\"c\")");
    assert_eq!(shown.iter().filter(|s| *s == "operate").count(), 3);
    assert_eq!(shown[4], "sleep 1ms");
    assert_eq!(shown[8], "sleep 2ms");
}

#[test]
fn the_longest_delay_is_kept() {
    let shown = script(
        &[u64::MAX],
        vec![Err(RetryError::Transient("a")), Ok("b")],
    );
    assert_eq!(
        shown[4],
        format!("sleep {:?}", Duration::from_millis(u64::MAX))
    );
}

#[test]
fn an_outcome_is_accepted_only_while_the_operation_runs() {
    let call = fresh(&[5]);
    assert!(call.accepts(&Event::Resume));
    assert!(!call.accepts(&Event::Completed(Ok("early"))));
    let (call, _) = call.step(Event::Resume);
    assert!(!call.accepts(&Event::Completed(Ok("early"))));
    let (call, _) = call.step(Event::Resume);
    let (call, action) = call.step(Event::Resume);
    assert!(matches!(action, Action::Operate));
    assert!(!call.accepts(&Event::Resume));
    assert!(call.accepts(&Event::Completed(Ok("now"))));
    let (call, _) = call.step(Event::Completed(Err(RetryError::Transient("no"))));
    let (call, action) = call.step(Event::Resume);
    assert!(matches!(action, Action::Sleep(_)));
    assert!(call.accepts(&Event::Resume));
    assert!(!call.accepts(&Event::Completed(Ok("asleep"))));
}

#[test]
fn stepping_reads_a_clock_that_does_not_go_back() {
    let call = fresh(&[5]);
    let (call, first) = call.step(Event::Resume);
    let (_, second) = call.step(Event::Resume);
    let first = match first {
        Action::BeforeAll(info) => info.total_elapsed,
        _ => panic!("before_all comes first"),
    };
    let second = match second {
        Action::BeforeAttempt(info) => info.total_elapsed,
        _ => panic!("before_attempt comes second"),
    };
    assert!(first <= second);
}

#[test]
fn each_action_tells_its_own_hook_and_no_other() {
    let mut heard: Vec<String> = Vec::new();
    let cell = std::cell::RefCell::new(&mut heard);
    let mut hooks = Hooks {
        before_all: |i: &BeforeAttemptInfo| cell.borrow_mut().push(format!("BA{}", i.attempt)),
        after_all: |i: &AfterAttemptInfo| cell.borrow_mut().push(format!("AA{}", i.attempt)),
        before_attempt: |i: &BeforeAttemptInfo| cell.borrow_mut().push(format!("B{}", i.attempt)),
        after_attempt: |i: &AfterAttemptInfo| cell.borrow_mut().push(format!("A{}", i.attempt)),
    };
    let before = BeforeAttemptInfo {
        attempt: 3,
        next_delay: None,
        total_elapsed: Duration::ZERO,
    };
    let after = AfterAttemptInfo {
        attempt: 4,
        success: true,
        next_delay: None,
        total_elapsed: Duration::ZERO,
    };
    let actions: Vec<Action<(), ()>> = vec![
        Action::BeforeAll(before.clone()),
        Action::AfterAll(after.clone()),
        Action::BeforeAttempt(before),
        Action::AfterAttempt(after),
        Action::Operate,
        Action::Sleep(Duration::from_secs(1)),
        Action::Return(Ok(())),
    ];
    for action in &actions {
        hooks.notify(action);
    }
    drop(hooks);
    assert_eq!(heard, vec!["BA3", "AA4", "B3", "A4"]);
}

#[test]
fn hooks_may_be_registered_in_any_order() {
    let (_, operation, mut hooks) = retry(&[], 17)
        .after_attempt(|_| {})
        .before_all(|_| {})
        .call::<(), ()>();
    assert_eq!(operation, 17);
    let mut told: Vec<u32> = Vec::new();
    let (_, operation, mut more) = retry(&[], 18)
        .after_all(|info| told.push(info.attempt))
        .before_attempt(|_| {})
        .call::<(), ()>();
    assert_eq!(operation, 18);
    let action: Action<(), ()> = Action::AfterAll(AfterAttemptInfo {
        attempt: 9,
        success: false,
        next_delay: None,
        total_elapsed: Duration::ZERO,
    });
    hooks.notify(&action);
    more.notify(&action);
    drop(more);
    assert_eq!(told, vec![9]);
}

#[test]
fn infos_clone_to_equal_infos() {
    let before = BeforeAttemptInfo {
        attempt: 2,
        next_delay: Some(Duration::from_millis(10)),
        total_elapsed: Duration::from_millis(3),
    };
    assert_eq!(format!("{:?}", before.clone()), format!("{:?}", before));
    let after = AfterAttemptInfo {
        attempt: 2,
        success: true,
        next_delay: None,
        total_elapsed: Duration::from_millis(3),
    };
    assert_eq!(format!("{:?}", after.clone()), format!("{:?}", after));
}

#[test]
fn errors_describe_themselves() {
    let transient = RetryError::Transient("timed out");
    let permanent = RetryError::Permanent("no such host");
    assert_eq!(
        transient.describe("timed out"),
        "transient error: timed out"
    );
    assert_eq!(
        permanent.describe("no such host"),
        "permanent error: no such host"
    );
    assert_eq!(transient.describe(""), "transient error: ");
    assert_eq!(permanent.describe(""), "permanent error: ");
    assert_eq!(format!("{:?}", transient), "Transient(\"timed out\")");
    assert_eq!(format!("{:?}", permanent), "Permanent(\"no such host\")");
}

/// The delays that a call sleeps when every attempt fails.
fn slept(delays: &[u64]) -> Vec<Duration> {
    let mut call = fresh(delays);
    let mut event = Event::Resume;
    let mut slept = Vec::new();
    loop {
        let (next, action) = call.step(event);
        call = next;
        event = match action {
            Action::Operate => Event::Completed(Err(RetryError::Transient("no"))),
            Action::Sleep(delay) => {
                slept.push(delay);
                Event::Resume
            }
            Action::Return(_) => return slept,
            _ => Event::Resume,
        };
    }
}

#[test]
fn delays_are_kept_as_they_were_given() {
    let a: [u64; 4] = [300, 1, 300, 0];
    let b: [u64; 3] = [u64::MAX, 999, u64::MAX - 1];
    let nanos: Vec<u128> = slept(&a).iter().map(|delay| delay.as_nanos()).collect();
    assert_eq!(nanos, vec![300_000_000, 1_000_000, 300_000_000, 0]);
    let nanos: Vec<u128> = slept(&b).iter().map(|delay| delay.as_nanos()).collect();
    assert_eq!(
        nanos,
        vec![
            u64::MAX as u128 * 1_000_000,
            999_000_000,
            (u64::MAX - 1) as u128 * 1_000_000,
        ]
    );
    assert_ne!(slept(&[300, 1]), slept(&[1, 300]));
    assert_ne!(slept(&[u64::MAX]), slept(&[u64::MAX - 1]));
    let mut joined = slept(&a);
    joined.extend(slept(&b));
    assert_eq!(slept(&[300, 1, 300, 0, u64::MAX, 999, u64::MAX - 1]), joined);
}
