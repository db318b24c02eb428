//! The closed error taxonomy, the classification of backend-call
//! failures into it, and the retry policy that separates transient
//! failures from fatal ones.

use vstd::prelude::*;

verus! {

/// The closed taxonomy of failures the engine distinguishes.
#[derive(Debug)]
pub enum TailError {
    /// A backend call timed out; retryable.
    Timeout,
    /// The backend asked for a slower pace; retryable with backoff.
    Throttled,
    /// The client's credentials expired; the owning process must rebuild
    /// the client.
    CredentialsExpired,
    /// No credentials could be found; fatal to the process.
    NoCredentials,
    /// The named stack does not exist; fatal to the process.
    StackNotFound(String),
    /// Transport trouble or an unrecognised failure, carrying the code
    /// or message; ignorable noise for a single poll tick.
    TransportOrUnknown(String),
    /// A raw status string that no variant maps; a contract violation,
    /// never expected in production.
    UnmappedStatus(String),
}

impl TailError {
    /// Retryable failures: the cycle that saw one continues with partial
    /// results and the stack is retried on the next cycle.
    pub open spec fn spec_retryable(&self) -> bool {
        match self {
            TailError::Timeout => true,
            TailError::Throttled => true,
            TailError::TransportOrUnknown(_) => true,
            _ => false,
        }
    }

    /// True exactly for `Timeout`, `Throttled` and `TransportOrUnknown`.
    pub fn is_retryable(&self) -> (r: bool)
        ensures
            r == self.spec_retryable(),
    {
        match self {
            TailError::Timeout => true,
            TailError::Throttled => true,
            TailError::TransportOrUnknown(_) => true,
            _ => false,
        }
    }
}

/// A backend-call failure as the boundary reports it: either the call
/// timed out, no credentials were available, the service answered with a
/// coded error, or the transport failed with a message.
#[derive(Debug)]
pub enum BackendFailure {
    TimedOut,
    NoCredentials,
    Service { code: String, message: String },
    Transport { message: String },
}

/// The classification table from a backend failure to the taxonomy,
/// keyed on the backend's error codes: a throttling code is retryable, an
/// expired-token code escalates for re-authentication, and a validation
/// error against `stack_name` means the stack does not exist.
pub open spec fn spec_classify(f: BackendFailure, stack_name: String) -> TailError {
    match f {
        BackendFailure::TimedOut => TailError::Timeout,
        BackendFailure::NoCredentials => TailError::NoCredentials,
        BackendFailure::Service { code, message } => {
            if code@ == "Throttling"@ {
                TailError::Throttled
            } else if code@ == "ExpiredToken"@ {
                TailError::CredentialsExpired
            } else if code@ == "ValidationError"@ {
                TailError::StackNotFound(stack_name)
            } else {
                TailError::TransportOrUnknown(code)
            }
        },
        BackendFailure::Transport { message } => TailError::TransportOrUnknown(message),
    }
}

/// Classifies a backend failure observed while calling on `stack_name`.
pub fn classify_failure(f: BackendFailure, stack_name: &String) -> (r: TailError)
    ensures
        r == spec_classify(f, *stack_name),
{
    match f {
        BackendFailure::TimedOut => TailError::Timeout,
        BackendFailure::NoCredentials => TailError::NoCredentials,
        BackendFailure::Service { code, message: _ } => {
            if crate::text::str_eq(code.as_str(), "Throttling") {
                TailError::Throttled
            } else if crate::text::str_eq(code.as_str(), "ExpiredToken") {
                TailError::CredentialsExpired
            } else if crate::text::str_eq(code.as_str(), "ValidationError") {
                TailError::StackNotFound(stack_name.clone())
            } else {
                TailError::TransportOrUnknown(code)
            }
        },
        BackendFailure::Transport { message } => TailError::TransportOrUnknown(message),
    }
}

/// The per-call retry budget: after a failed attempt the caller either
/// gives up (the budget is spent) or sleeps for the delay and retries.
pub struct Backoff {
    pub attempt: u8,
    pub budget: u8,
}

impl Backoff {
    /// A fresh budget of `budget` retries beyond the first attempt.
    pub fn new(budget: u8) -> (b: Backoff)
        ensures
            b.attempt == 0,
            b.budget == budget,
    {
        Backoff { attempt: 0, budget }
    }

    /// A failure at this point is final once the budget is spent.
    pub fn gives_up(&self) -> (r: bool)
        ensures
            r == (self.attempt >= self.budget),
    {
        self.attempt >= self.budget
    }

    /// The delay before the next attempt grows by one second per failure.
    pub fn delay_secs(&self) -> (d: u64)
        ensures
            d == self.attempt + 1,
    {
        (self.attempt as u64) + 1
    }

    /// Records a failed attempt that the budget still covers.
    pub fn advance(&mut self)
        requires
            old(self).attempt < old(self).budget,
        ensures
            final(self).attempt == old(self).attempt + 1,
            final(self).budget == old(self).budget,
    {
        self.attempt = self.attempt + 1;
    }
}

} // verus!
