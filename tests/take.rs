use rual::take::{first_attempt, last_attempt, next_attempt};
use rual::{StackError, TakeStep};

fn outcome(step: TakeStep<i64>) -> Option<Result<i64, StackError>> {
    match step {
        TakeStep::Done(r) => Some(r),
        TakeStep::Wait => None,
    }
}

#[test]
fn first_attempt_decisions() {
    assert_eq!(outcome(first_attempt(Ok(42), true, Some(0))), Some(Ok(42)));
    assert_eq!(outcome(first_attempt(Ok(42), true, None)), Some(Ok(42)));
    assert_eq!(outcome(first_attempt(Err(StackError::Empty), true, None)), Some(Err(StackError::Closed)));
    assert_eq!(outcome(first_attempt(Err(StackError::Empty), false, Some(0))), Some(Err(StackError::Empty)));
    assert_eq!(outcome(first_attempt(Err(StackError::Empty), true, Some(0))), Some(Err(StackError::Empty)));
    assert_eq!(outcome(first_attempt(Err(StackError::Frozen), true, Some(0))), Some(Err(StackError::Frozen)));
    assert_eq!(outcome(first_attempt(Err(StackError::Empty), false, Some(50))), None);
    assert_eq!(outcome(first_attempt(Err(StackError::Empty), false, None)), None);
}

#[test]
fn next_attempt_decisions() {
    assert_eq!(outcome(next_attempt(Ok(7), true, true)), Some(Ok(7)));
    assert_eq!(outcome(next_attempt(Err(StackError::Empty), true, true)), Some(Err(StackError::Closed)));
    assert_eq!(outcome(next_attempt(Err(StackError::Empty), false, true)), Some(Err(StackError::Timeout)));
    assert_eq!(outcome(next_attempt(Err(StackError::Frozen), false, false)), None);
}

#[test]
fn last_attempt_decisions() {
    assert_eq!(last_attempt(Ok(3)), Ok(3));
    assert_eq!(last_attempt::<i64>(Err(StackError::Empty)), Err(StackError::Timeout));
}
