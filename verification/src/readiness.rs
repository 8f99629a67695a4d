//! The readiness gate: when a non-blocking call may be tried, and what its
//! result means for the task and for the reactor.
//!
//! A reactor remembers, for each direction of a descriptor, whether the
//! kernel last reported it ready. An operation asks the reactor first. If the
//! reactor says ready it hands out a token, and the operation tries its
//! system call once. Only if the call would have blocked is the reactor told
//! to forget the readiness, so that it waits for the next report of the
//! kernel; after any other result the readiness stays.

use vstd::prelude::*;
use crate::error::Error;

verus! {

/// The direction an operation needs the descriptor to be ready for.
#[derive(Clone, Copy, Debug, PartialEq, Eq)]
pub enum Interest {
    /// Data can be received.
    Readable,
    /// Data can be sent.
    Writable,
}

/// What the reactor answered when asked for readiness.
#[derive(Clone, Copy, Debug, PartialEq, Eq)]
pub enum Readiness {
    /// Not ready: the task is woken when that changes.
    Pending,
    /// The reactor itself failed.
    Failed(Error),
    /// Ready: a token was handed out.
    Ready,
}

/// What becomes of the token once the call was tried.
#[derive(Clone, Copy, Debug, PartialEq, Eq)]
pub enum Token {
    /// The readiness was spent: the reactor waits for the kernel's next report.
    Clear,
    /// The readiness still holds: the next operation may go ahead at once.
    Retain,
}

/// What a task that polls an operation is told.
#[derive(Debug, PartialEq, Eq)]
pub enum Poll<T> {
    /// The operation is over, with this result.
    Ready(T),
    /// The operation is not over; the task will be woken.
    Pending,
}

/// What follows from the result of the one call an operation tried.
#[derive(Debug, PartialEq, Eq)]
pub struct Outcome {
    /// What to do with the token.
    pub token: Token,
    /// What to tell the task.
    pub poll: Poll<Result<usize, Error>>,
}

/// The one rule of readiness: a call that would have blocked clears the
/// token and leaves the operation pending; any other result, success or
/// failure, is the operation's result, and the token is kept.
pub open spec fn outcome_of(result: Result<usize, Error>) -> Outcome {
    match result {
        Err(error) if error.spec_is_would_block() => Outcome {
            token: Token::Clear,
            poll: Poll::Pending,
        },
        _ => Outcome { token: Token::Retain, poll: Poll::Ready(result) },
    }
}

/// Whether a result is the transient failure.
pub open spec fn would_block(result: Result<usize, Error>) -> bool {
    result is Err && result->Err_0.spec_is_would_block()
}

/// A call that would have blocked is never what the task is told: the task
/// is left pending exactly then, and exactly then the token is cleared.
/// Every other result is told as it is.
pub proof fn lemma_only_would_block_is_pending(result: Result<usize, Error>)
    ensures
        would_block(result) ==> outcome_of(result) == (Outcome {
            token: Token::Clear,
            poll: Poll::Pending,
        }),
        !would_block(result) ==> outcome_of(result) == (Outcome {
            token: Token::Retain,
            poll: Poll::Ready(result),
        }),
{
}

/// Judges the result of a call by the rule of readiness.
pub fn outcome(result: Result<usize, Error>) -> (outcome: Outcome)
    ensures
        outcome == outcome_of(result),
{
    match result {
        Err(error) => {
            if error.is_would_block() {
                Outcome { token: Token::Clear, poll: Poll::Pending }
            } else {
                Outcome { token: Token::Retain, poll: Poll::Ready(Err(error)) }
            }
        },
        Ok(size) => Outcome { token: Token::Retain, poll: Poll::Ready(Ok(size)) },
    }
}

} // verus!
