//! The decisions of a blocking take. The waiting itself (sleeping, or a
//! condition variable) belongs to the caller, who runs the loop:
//! attempt a pop, ask what to do, and wait when told to.
use vstd::prelude::*;
use crate::error::{Result, StackError};

verus! {

/// What a blocking take does after a pop attempt.
pub enum TakeStep<T> {
    /// The take ends with this outcome.
    Done(Result<T>),
    /// Wait for a push or a close, then attempt again.
    Wait,
}

/// The first attempt of a take with an optional timeout in milliseconds. A
/// zero timeout never waits: the take is the pop attempt itself, whatever it
/// gave. Otherwise a value ends it, a closed stack ends it with `Closed`, and
/// anything else means wait.
pub fn first_attempt<T>(attempt: Result<T>, closed: bool, timeout_ms: Option<u64>) -> (r: TakeStep<T>)
    ensures
        timeout_ms == Some(0u64) ==> r == TakeStep::Done(attempt),
        timeout_ms != Some(0u64) ==> match attempt {
            Ok(v) => r == TakeStep::Done(Ok::<T, StackError>(v)),
            Err(_) => if closed {
                r == TakeStep::<T>::Done(Err(StackError::Closed))
            } else {
                r == TakeStep::<T>::Wait
            },
        },
{
    if timeout_ms == Some(0u64) {
        return TakeStep::Done(attempt);
    }
    match attempt {
        Ok(v) => TakeStep::Done(Ok(v)),
        Err(_) => {
            if closed {
                TakeStep::Done(Err(StackError::Closed))
            } else {
                TakeStep::Wait
            }
        },
    }
}

/// A later attempt: a value ends the take, then a closed stack ends it with
/// `Closed`, then a passed deadline ends it with `Timeout`; otherwise wait.
pub fn next_attempt<T>(attempt: Result<T>, closed: bool, expired: bool) -> (r: TakeStep<T>)
    ensures
        match attempt {
            Ok(v) => r == TakeStep::Done(Ok::<T, StackError>(v)),
            Err(_) => if closed {
                r == TakeStep::<T>::Done(Err(StackError::Closed))
            } else if expired {
                r == TakeStep::<T>::Done(Err(StackError::Timeout))
            } else {
                r == TakeStep::<T>::Wait
            },
        },
{
    match attempt {
        Ok(v) => TakeStep::Done(Ok(v)),
        Err(_) => {
            if closed {
                TakeStep::Done(Err(StackError::Closed))
            } else if expired {
                TakeStep::Done(Err(StackError::Timeout))
            } else {
                TakeStep::Wait
            }
        },
    }
}

/// The last attempt after a wait ran out of time: its value, or `Timeout`.
pub fn last_attempt<T>(attempt: Result<T>) -> (r: Result<T>)
    ensures
        match attempt {
            Ok(v) => r == Ok::<T, StackError>(v),
            Err(_) => r == Err::<T, StackError>(StackError::Timeout),
        },
{
    match attempt {
        Ok(v) => Ok(v),
        Err(_) => Err(StackError::Timeout),
    }
}

} // verus!
