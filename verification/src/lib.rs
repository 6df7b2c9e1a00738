//! Simple retries: pass your delays as a slice of milliseconds and an operation,
//! and get back its first success, its first permanent error, or its last
//! transient error.
//!
//! [`retry`] makes a builder, [`Retry`], on which up to four hooks can be
//! registered. [`Retry::call`] turns the builder into a [`Call`]: the retry
//! loop as a state machine. A driver asks it for one [`Action`] after another
//! (tell a hook, run the operation, sleep, return) and reports back with an
//! [`Event`]. The machine never awaits anything itself, so what it decides can
//! be, and is, verified; what a whole call does is stated in [`laws`] and
//! [`runs`].

pub mod builder;
pub mod call;
pub mod clock;
pub mod error;
pub mod hooks;
pub mod info;
pub mod laws;
pub mod runs;

pub use builder::{retry, Retry};
pub use call::{Action, Call, Event, Stage};
pub use error::RetryError;
pub use hooks::{Hook, Hooks, NoHook};
pub use info::{AfterAttemptInfo, BeforeAttemptInfo};
