//! Exclusive access to a value shared between threads, over `parking_lot::Mutex`.
//!
//! While a thread holds the lock it owns the value outright: `acquire` moves the
//! value out (leaving a placeholder behind the lock) and `release` moves it back.
use vstd::prelude::*;

verus! {

/// A value behind a `parking_lot::Mutex`.
#[verifier::external_body]
#[verifier::reject_recursive_types(T)]
pub struct Exclusive<T> {
    cell: parking_lot::Mutex<T>,
}

/// A held lock; its value is out with the holder until `release` or `restore`.
#[verifier::external_body]
#[verifier::reject_recursive_types(T)]
pub struct Held<'a, T> {
    guard: parking_lot::MutexGuard<'a, T>,
}

impl<T> Exclusive<T> {
    /// Relies on `parking_lot::Mutex::new`: an unlocked mutex holding `value`.
    #[verifier::external_body]
    pub fn new(value: T) -> (r: Exclusive<T>) {
        Exclusive { cell: parking_lot::Mutex::new(value) }
    }

    /// Relies on `parking_lot::Mutex::lock`: blocks until this thread is the only
    /// holder, then trades `placeholder` for the value held.
    #[verifier::external_body]
    pub fn acquire(&self, placeholder: T) -> (r: (Held<'_, T>, T)) {
        let mut guard = self.cell.lock();
        let value = core::mem::replace(&mut *guard, placeholder);
        (Held { guard }, value)
    }
}

impl<'a, T> Held<'a, T> {
    /// Relies on `parking_lot::MutexGuard`: stores `value` and unlocks as the guard drops.
    #[verifier::external_body]
    pub fn release(self, value: T) {
        let mut guard = self.guard;
        *guard = value;
    }

    /// Relies on `parking_lot::MutexGuard`: swaps `value` with what the lock holds,
    /// keeping the lock held.
    #[verifier::external_body]
    pub fn restore(&mut self, value: &mut T)
        opens_invariants none
        no_unwind
    {
        core::mem::swap(&mut *self.guard, value);
    }
}

} // verus!
