# tokio_retry_simple

Simple retries for `tokio`, verified with Verus. Pass your delays as a slice of
milliseconds and an operation; get back its first success, its first permanent
error, or its last transient error.

- `src/` is the verified library. `retry` and the hook methods build a `Retry`;
  `Retry::call` turns it into a `Call`, the retry loop as a state machine that
  says what to do next and is told what came of it. `src/laws.rs` proves what a
  whole call does: which hooks are told what and in which order, how often the
  operation runs, what is slept, and what is returned.
- `app/` drives the machine on a `tokio` runtime and offers it as an `async fn`
  and through `IntoFuture`.
- `tests/` runs the library on a runtime with a paused clock.

The delays slice is milliseconds. `&[1000, 2000, 4000]` means up to 4 attempts: try
once, wait 1s, try again, wait 2s, try again, wait 4s, try one last time.

| Hook | Called | Receives |
|------|--------|----------|
| `before_all` | Once, before the first attempt | `BeforeAttemptInfo` |
| `before_attempt` | Before each attempt | `BeforeAttemptInfo` |
| `after_attempt` | After each attempt | `AfterAttemptInfo` |
| `after_all` | Once, after the last attempt | `AfterAttemptInfo` |

Both infos carry `attempt`, `next_delay` and `total_elapsed`:

- before: the delay that will be slept if this attempt fails (`None` on the last attempt)
- after: the delay about to be slept (`None` if succeeded, permanent, or exhausted)

What is trusted of `tokio` and `std` (reading the clock, making a duration) is in
`src/clock.rs`.
