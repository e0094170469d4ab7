use vstd::prelude::*;

verus! {

/// The closed set of failures a stack operation can report.
#[derive(Debug, Clone, Copy, PartialEq, Eq, Structural)]
pub enum StackError {
    Empty,
    Full,
    Frozen,
    Closed,
    IndexOutOfBounds,
    KeyNotFound,
    KeyRequired,
    Timeout,
    /// Reserved for a future cancellation mechanism; nothing produces it yet.
    Cancelled,
}

/// Result of a stack operation.
pub type Result<T> = core::result::Result<T, StackError>;

impl StackError {
    /// A short human-readable description of the failure.
    pub fn message(&self) -> (r: &'static str)
        ensures
            r@ == (match *self {
                StackError::Empty => "stack empty"@,
                StackError::Full => "stack full"@,
                StackError::Frozen => "stack is frozen"@,
                StackError::Closed => "stack closed"@,
                StackError::IndexOutOfBounds => "index out of bounds"@,
                StackError::KeyNotFound => "key not found"@,
                StackError::KeyRequired => "hash perspective requires key"@,
                StackError::Timeout => "operation timed out"@,
                StackError::Cancelled => "operation cancelled"@,
            }),
    {
        match self {
            StackError::Empty => "stack empty",
            StackError::Full => "stack full",
            StackError::Frozen => "stack is frozen",
            StackError::Closed => "stack closed",
            StackError::IndexOutOfBounds => "index out of bounds",
            StackError::KeyNotFound => "key not found",
            StackError::KeyRequired => "hash perspective requires key",
            StackError::Timeout => "operation timed out",
            StackError::Cancelled => "operation cancelled",
        }
    }
}

} // verus!
