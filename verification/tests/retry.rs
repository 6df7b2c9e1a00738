use std::cell::Cell;
use std::future::Future;
use std::rc::Rc;
use std::sync::atomic::{AtomicU32, Ordering};
use std::time::Duration;

use tokio_retry_simple::{
    retry, Action, AfterAttemptInfo, BeforeAttemptInfo, Event, Hook, Retry, RetryError,
};

/// Runs a future to its end on a runtime whose clock is paused.
fn run<Fut: Future>(future: Fut) -> Fut::Output {
    tokio::runtime::Builder::new_current_thread()
        .enable_time()
        .start_paused(true)
        .build()
        .unwrap()
        .block_on(future)
}

/// Drives a call to its result.
async fn drive<F, A, B, C, D, Fut, T, E>(retry: Retry<F, A, B, C, D>) -> Result<T, E>
where
    F: FnMut() -> Fut,
    Fut: Future<Output = Result<T, RetryError<E>>>,
    A: Hook<BeforeAttemptInfo>,
    B: Hook<AfterAttemptInfo>,
    C: Hook<BeforeAttemptInfo>,
    D: Hook<AfterAttemptInfo>,
{
    let (mut call, mut operation, mut hooks) = retry.call::<T, E>();
    let mut event = Event::Resume;
    loop {
        assert!(call.accepts(&event));
        let (next, action) = call.step(event);
        call = next;
        event = match action {
            Action::Operate => Event::Completed(operation().await),
            Action::Sleep(delay) => {
                tokio::time::sleep(delay).await;
                Event::Resume
            }
            Action::Return(result) => return result,
            hook => {
                hooks.notify(&hook);
                Event::Resume
            }
        };
    }
}

#[test]
fn success_on_first_attempt() {
    run(async {
        let result: Result<&str, &str> = drive(retry(&[1000, 2000], || async { Ok("nice") })).await;
        assert_eq!(result, Ok("nice"));
    })
}

#[test]
fn retry_then_succeed() {
    run(async {
        let count = Cell::new(0u32);
        let result = drive(retry(&[100, 200, 400], || {
            let attempt = count.get() + 1;
            count.set(attempt);
            async move {
                if attempt < 3 {
                    Err(RetryError::Transient("not yet"))
                } else {
                    Ok("got it")
                }
            }
        }))
        .await;

        assert_eq!(result, Ok("got it"));
        assert_eq!(count.get(), 3);
    })
}

#[test]
fn all_retries_exhausted() {
    run(async {
        let count = Cell::new(0u32);
        let result: Result<(), &str> = drive(retry(&[100, 200], || {
            count.set(count.get() + 1);
            async { Err(RetryError::Transient("still broken")) }
        }))
        .await;

        assert_eq!(result, Err("still broken"));
        assert_eq!(count.get(), 3);
    })
}

#[test]
fn permanent_error_stops_early() {
    run(async {
        let count = Cell::new(0u32);
        let result: Result<(), &str> = drive(retry(&[100, 200, 400], || {
            let attempt = count.get() + 1;
            count.set(attempt);
            async move {
                if attempt == 2 {
                    Err(RetryError::Permanent("fatal"))
                } else {
                    Err(RetryError::Transient("meh"))
                }
            }
        }))
        .await;

        assert_eq!(result, Err("fatal"));
        assert_eq!(count.get(), 2);
    })
}

#[test]
fn empty_delays_single_attempt() {
    run(async {
        let count = Cell::new(0u32);
        let result: Result<(), &str> = drive(retry(&[], || {
            count.set(count.get() + 1);
            async { Err(RetryError::Transient("fail")) }
        }))
        .await;

        assert_eq!(result, Err("fail"));
        assert_eq!(count.get(), 1);
    })
}

#[test]
fn hooks_receive_correct_info() {
    run(async {
        let before_log = Rc::new(Cell::new(Vec::new()));
        let after_log = Rc::new(Cell::new(Vec::new()));
        let count = Cell::new(0u32);

        let bl = before_log.clone();
        let al = after_log.clone();
        let _ = drive(
            retry(&[100, 200], || {
                let attempt = count.get() + 1;
                count.set(attempt);
                async move {
                    if attempt < 3 {
                        Err::<(), _>(RetryError::Transient("nope"))
                    } else {
                        Ok(())
                    }
                }
            })
            .before_attempt(move |info| {
                let mut v = bl.take();
                v.push(info.attempt);
                bl.set(v);
            })
            .after_attempt(move |info| {
                let mut v = al.take();
                v.push((info.attempt, info.success, info.next_delay));
                al.set(v);
            }),
        )
        .await;

        let before = before_log.take();
        assert_eq!(before, vec![1, 2, 3]);

        let after = after_log.take();
        assert_eq!(after.len(), 3);
        assert_eq!(after[0], (1, false, Some(Duration::from_millis(100))));
        assert_eq!(after[1], (2, false, Some(Duration::from_millis(200))));
        assert_eq!(after[2], (3, true, None));
    })
}

#[test]
fn before_after_hook_ordering() {
    run(async {
        let log = Rc::new(Cell::new(Vec::new()));

        let log_op = log.clone();
        let log_ba = log.clone();
        let log_aa = log.clone();
        let log_ball = log.clone();
        let log_aall = log.clone();
        let _ = drive(
            retry(&[100], move || {
                let attempt = {
                    let mut v = log_op.take();
                    let a = v.iter().filter(|s: &&String| s.starts_with("op")).count() as u32 + 1;
                    v.push(format!("op{a}"));
                    log_op.set(v);
                    a
                };
                async move {
                    if attempt < 2 {
                        Err::<(), _>(RetryError::Transient("err"))
                    } else {
                        Ok(())
                    }
                }
            })
            .before_all(move |_| {
                let mut v = log_ball.take();
                v.push("before_all".to_string());
                log_ball.set(v);
            })
            .before_attempt(move |info| {
                let mut v = log_ba.take();
                v.push(format!("before{}", info.attempt));
                log_ba.set(v);
            })
            .after_attempt(move |info| {
                let mut v = log_aa.take();
                v.push(format!("after{}", info.attempt));
                log_aa.set(v);
            })
            .after_all(move |_| {
                let mut v = log_aall.take();
                v.push("after_all".to_string());
                log_aall.set(v);
            }),
        )
        .await;

        let entries = log.take();
        assert_eq!(
            entries,
            vec![
                "before_all",
                "before1",
                "op1",
                "after1",
                "before2",
                "op2",
                "after2",
                "after_all",
            ]
        );
    })
}

#[test]
fn builder_ergonomics_with_await() {
    run(async {
        let count = AtomicU32::new(0);
        let result = drive(
            retry(&[100], move || {
                let attempt = count.fetch_add(1, Ordering::Relaxed) + 1;
                async move {
                    if attempt < 2 {
                        Err::<&str, _>(RetryError::Transient("nah"))
                    } else {
                        Ok("yep")
                    }
                }
            })
            .before_attempt(|_| {})
            .after_attempt(|_| {}),
        )
        .await;

        assert_eq!(result, Ok("yep"));
    })
}

#[test]
fn elapsed_time_advances_with_delays() {
    run(async {
        let elapsed_log = Rc::new(Cell::new(Vec::new()));

        let el = elapsed_log.clone();
        let _ = drive(
            retry(&[1000, 2000], || async {
                Err::<(), _>(RetryError::Transient("fail"))
            })
            .before_attempt(move |info| {
                let mut v = el.take();
                v.push(info.total_elapsed);
                el.set(v);
            }),
        )
        .await;

        let elapsed = elapsed_log.take();
        assert_eq!(elapsed.len(), 3);
        assert!(elapsed[0] < Duration::from_millis(10));
        assert!(elapsed[1] >= Duration::from_millis(1000));
        assert!(elapsed[2] >= Duration::from_millis(3000));
    })
}

#[test]
fn before_all_after_all_called_on_success() {
    run(async {
        let log = Rc::new(Cell::new(Vec::new()));

        let l1 = log.clone();
        let l2 = log.clone();
        let _ = drive(
            retry(&[100], || async { Ok::<_, RetryError<()>>(()) })
                .before_all(move |info| {
                    let mut v = l1.take();
                    v.push(format!("before_all(attempt={})", info.attempt));
                    l1.set(v);
                })
                .after_all(move |info| {
                    let mut v = l2.take();
                    v.push(format!(
                        "after_all(attempt={},success={})",
                        info.attempt, info.success
                    ));
                    l2.set(v);
                }),
        )
        .await;

        assert_eq!(
            log.take(),
            vec!["before_all(attempt=1)", "after_all(attempt=1,success=true)"]
        );
    })
}

#[test]
fn before_all_after_all_called_on_permanent() {
    run(async {
        let log = Rc::new(Cell::new(Vec::new()));

        let l1 = log.clone();
        let l2 = log.clone();
        let _: Result<(), &str> = drive(
            retry(&[100], || async { Err(RetryError::Permanent("boom")) })
                .before_all(move |info| {
                    let mut v = l1.take();
                    v.push(format!("before_all(attempt={})", info.attempt));
                    l1.set(v);
                })
                .after_all(move |info| {
                    let mut v = l2.take();
                    v.push(format!(
                        "after_all(attempt={},success={})",
                        info.attempt, info.success
                    ));
                    l2.set(v);
                }),
        )
        .await;

        assert_eq!(
            log.take(),
            vec![
                "before_all(attempt=1)",
                "after_all(attempt=1,success=false)"
            ]
        );
    })
}

#[test]
fn before_all_after_all_called_on_exhaustion() {
    run(async {
        let log = Rc::new(Cell::new(Vec::new()));

        let l1 = log.clone();
        let l2 = log.clone();
        let _: Result<(), &str> = drive(
            retry(&[100], || async { Err(RetryError::Transient("nope")) })
                .before_all(move |info| {
                    let mut v = l1.take();
                    v.push(format!("before_all(attempt={})", info.attempt));
                    l1.set(v);
                })
                .after_all(move |info| {
                    let mut v = l2.take();
                    v.push(format!(
                        "after_all(attempt={},success={})",
                        info.attempt, info.success
                    ));
                    l2.set(v);
                }),
        )
        .await;

        assert_eq!(
            log.take(),
            vec![
                "before_all(attempt=1)",
                "after_all(attempt=2,success=false)"
            ]
        );
    })
}

#[test]
fn after_attempt_success_flag() {
    run(async {
        let results = Rc::new(Cell::new(Vec::new()));
        let count = Cell::new(0u32);

        let r = results.clone();
        let _ = drive(
            retry(&[100], || {
                let attempt = count.get() + 1;
                count.set(attempt);
                async move {
                    if attempt < 2 {
                        Err::<(), _>(RetryError::Transient("err"))
                    } else {
                        Ok(())
                    }
                }
            })
            .after_attempt(move |info| {
                let mut v = r.take();
                v.push((info.attempt, info.success));
                r.set(v);
            }),
        )
        .await;

        let r = results.take();
        assert_eq!(r, vec![(1, false), (2, true)]);
    })
}

#[test]
fn after_attempt_permanent_not_success() {
    run(async {
        let results = Rc::new(Cell::new(Vec::new()));

        let r = results.clone();
        let _: Result<(), &str> = drive(
            retry(&[100], || async { Err(RetryError::Permanent("fatal")) }).after_attempt(
                move |info| {
                    let mut v = r.take();
                    v.push((info.attempt, info.success));
                    r.set(v);
                },
            ),
        )
        .await;

        assert_eq!(results.take(), vec![(1, false)]);
    })
}

#[test]
fn elapsed_time_is_the_sum_of_the_delays_on_a_paused_clock() {
    run(async {
        let before = Rc::new(Cell::new(Vec::new()));
        let total = Rc::new(Cell::new(Duration::ZERO));

        let b = before.clone();
        let t = total.clone();
        let result: Result<(), &str> = drive(
            retry(&[1000, 2000, 4000], || async {
                Err(RetryError::Transient("down"))
            })
            .before_attempt(move |info| {
                let mut v = b.take();
                v.push((info.attempt, info.total_elapsed));
                b.set(v);
            })
            .after_all(move |info| t.set(info.total_elapsed)),
        )
        .await;

        assert_eq!(result, Err("down"));
        assert_eq!(
            before.take(),
            vec![
                (1, Duration::from_secs(0)),
                (2, Duration::from_secs(1)),
                (3, Duration::from_secs(3)),
                (4, Duration::from_secs(7)),
            ]
        );
        assert_eq!(total.get(), Duration::from_secs(7));
    })
}

#[test]
fn hooks_before_attempts_know_the_delay_to_come() {
    run(async {
        let log = Rc::new(Cell::new(Vec::new()));

        let all = log.clone();
        let each = log.clone();
        let _: Result<(), &str> = drive(
            retry(&[50, 70], || async { Err(RetryError::Transient("down")) })
                .before_all(move |info| {
                    let mut v = all.take();
                    v.push((info.attempt, info.next_delay));
                    all.set(v);
                })
                .before_attempt(move |info| {
                    let mut v = each.take();
                    v.push((info.attempt, info.next_delay));
                    each.set(v);
                }),
        )
        .await;

        assert_eq!(
            log.take(),
            vec![
                (1, Some(Duration::from_millis(50))),
                (1, Some(Duration::from_millis(50))),
                (2, Some(Duration::from_millis(70))),
                (3, None),
            ]
        );
    })
}

#[test]
fn closures_may_borrow_from_the_surrounding_scope() {
    run(async {
        let mut attempts = 0u32;
        let mut told = 0u32;
        let delays: Vec<u64> = (0..5).map(|i| 100 * 2u64.pow(i)).collect();
        let result: Result<u32, &str> = drive(
            retry(&delays, || {
                attempts += 1;
                let attempt = attempts;
                async move {
                    if attempt == 6 {
                        Ok(attempt)
                    } else {
                        Err(RetryError::Transient("again"))
                    }
                }
            })
            .after_attempt(|_| told += 1),
        )
        .await;

        assert_eq!(result, Ok(6));
        assert_eq!(attempts, 6);
        assert_eq!(told, 6);
    })
}

#[test]
fn the_last_hook_registered_stays() {
    run(async {
        let log = Rc::new(Cell::new(Vec::new()));

        let first = log.clone();
        let second = log.clone();
        let _ = drive(
            retry(&[100], || async { Ok::<_, RetryError<()>>(()) })
                .before_all(move |_| {
                    let mut v = first.take();
                    v.push("first");
                    first.set(v);
                })
                .before_all(move |_| {
                    let mut v = second.take();
                    v.push("second");
                    second.set(v);
                }),
        )
        .await;

        assert_eq!(log.take(), vec!["second"]);
    })
}

/// An error that notes when it is dropped.
struct Noisy {
    name: &'static str,
    log: Rc<Cell<Vec<String>>>,
}

fn note(log: &Rc<Cell<Vec<String>>>, entry: String) {
    let mut v = log.take();
    v.push(entry);
    log.set(v);
}

impl Drop for Noisy {
    fn drop(&mut self) {
        note(&self.log, format!("drop {}", self.name));
    }
}

#[test]
fn an_error_is_held_until_the_next_one_takes_its_place() {
    run(async {
        let log: Rc<Cell<Vec<String>>> = Rc::new(Cell::new(Vec::new()));
        let count = Cell::new(0usize);

        let op = log.clone();
        let before = log.clone();
        let after = log.clone();
        let all = log.clone();
        let result = drive(
            retry(&[1, 1, 1], || {
                let attempt = count.get() + 1;
                count.set(attempt);
                let error = Noisy {
                    name: ["a", "b", "c"][(attempt - 1).min(2)],
                    log: op.clone(),
                };
                async move {
                    if attempt < 3 {
                        Err(RetryError::Transient(error))
                    } else {
                        Err::<(), _>(RetryError::Permanent(error))
                    }
                }
            })
            .before_attempt(move |info| note(&before, format!("before {}", info.attempt)))
            .after_attempt(move |info| note(&after, format!("after {}", info.attempt)))
            .after_all(move |_| note(&all, format!("after_all"))),
        )
        .await;

        note(&log, format!("returned"));
        assert_eq!(result.err().map(|error| error.name), Some("c"));
        assert_eq!(
            log.take(),
            vec![
                "before 1",
                "after 1",
                "before 2",
                "after 2",
                "drop a",
                "before 3",
                "after 3",
                "after_all",
                "drop b",
                "returned",
                "drop c",
            ]
        );
    })
}
