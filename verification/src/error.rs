//! How an operation classifies its failures.

use vstd::prelude::*;

verus! {

/// Classifies an error as retryable or fatal.
///
/// The operation returns `Result<T, RetryError<E>>`. The retry loop inspects
/// the variant to decide whether to keep going or bail, and strips it off
/// before it returns.
#[derive(Debug)]
pub enum RetryError<E> {
    /// Retryable: will try again if attempts remain.
    Transient(E),
    /// Fatal: stops immediately, no more attempts.
    Permanent(E),
}

impl<E> RetryError<E> {
    /// The error without its classification.
    pub open spec fn inner(self) -> E {
        match self {
            RetryError::Transient(e) => e,
            RetryError::Permanent(e) => e,
        }
    }

    /// The text that names the classification of an error in messages.
    pub open spec fn label(self) -> Seq<char> {
        match self {
            RetryError::Transient(_) => "transient error: "@,
            RetryError::Permanent(_) => "permanent error: "@,
        }
    }

    /// The message for this error, given the text of the error inside: the
    /// classification, then that text.
    pub fn describe(&self, inner: &str) -> (message: String)
        ensures
            message@ == self.label() + inner@,
            *self is Transient ==> message@ == "transient error: "@ + inner@,
            *self is Permanent ==> message@ == "permanent error: "@ + inner@,
    {
        let label = match self {
            RetryError::Transient(_) => "transient error: ",
            RetryError::Permanent(_) => "permanent error: ",
        };
        let mut message: String = label.to_owned();
        message.append(inner);
        message
    }
}

/// Whether an outcome of the operation may be followed by another attempt.
pub open spec fn retryable<T, E>(outcome: Result<T, RetryError<E>>) -> bool {
    outcome matches Err(RetryError::Transient(_))
}

/// An outcome of the operation with the classification of its error stripped
/// off: what a call that ends with this outcome returns.
pub open spec fn stripped<T, E>(outcome: Result<T, RetryError<E>>) -> Result<T, E> {
    match outcome {
        Ok(value) => Ok(value),
        Err(error) => Err(error.inner()),
    }
}

} // verus!
