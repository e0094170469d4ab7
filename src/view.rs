//! Views: a shared stack read through one fixed perspective.
use vstd::prelude::*;
use std::sync::Arc;
use vstd::view::View as _;
use crate::error::{Result, StackError};
use crate::model::{Perspective, PopParam, StackView, peek_returns, pop_returns, push_keyed_returns, push_returns};
use crate::stack::Stack;

verus! {

/// Relies on `Arc::clone`: another handle to the same shared value.
#[verifier::external_body]
pub(crate) fn share<T>(a: &Arc<T>) -> (r: Arc<T>)
    ensures
        r == *a,
{
    Arc::clone(a)
}

/// A shared stack bound to one perspective, whatever perspective the stack itself holds.
///
/// Each pop or peek switches the stack to the view's perspective, operates and
/// switches back, all under a single hold of the stack's lock.
#[verifier::reject_recursive_types(T)]
pub struct View<T> {
    stack: Arc<Stack<T>>,
    perspective: Perspective,
}

impl<T: Clone> View<T> {
    /// The perspective this view reads with.
    pub closed spec fn spec_perspective(&self) -> Perspective {
        self.perspective
    }

    /// The stack this view reads.
    pub closed spec fn spec_stack(&self) -> Stack<T> {
        *self.stack
    }

    pub fn new(stack: Arc<Stack<T>>, perspective: Perspective) -> (r: View<T>)
        ensures
            r.spec_perspective() == perspective,
            r.spec_stack() == *stack,
    {
        View { stack, perspective }
    }

    pub fn lifo(stack: Arc<Stack<T>>) -> (r: View<T>)
        ensures
            r.spec_perspective() == Perspective::LIFO,
            r.spec_stack() == *stack,
    {
        View::new(stack, Perspective::LIFO)
    }

    pub fn fifo(stack: Arc<Stack<T>>) -> (r: View<T>)
        ensures
            r.spec_perspective() == Perspective::FIFO,
            r.spec_stack() == *stack,
    {
        View::new(stack, Perspective::FIFO)
    }

    pub fn indexed(stack: Arc<Stack<T>>) -> (r: View<T>)
        ensures
            r.spec_perspective() == Perspective::Indexed,
            r.spec_stack() == *stack,
    {
        View::new(stack, Perspective::Indexed)
    }

    pub fn hash(stack: Arc<Stack<T>>) -> (r: View<T>)
        ensures
            r.spec_perspective() == Perspective::Hash,
            r.spec_stack() == *stack,
    {
        View::new(stack, Perspective::Hash)
    }

    pub fn perspective(&self) -> (r: Perspective)
        ensures
            r == self.spec_perspective(),
    {
        self.perspective
    }

    /// The underlying stack.
    pub fn stack(&self) -> (r: &Arc<Stack<T>>)
        ensures
            **r == self.spec_stack(),
    {
        &self.stack
    }

    /// Pops by the view's default rule.
    pub fn pop(&self) -> (r: Result<T>)
        ensures
            exists|s: StackView<T>| s.wf() && #[trigger] pop_returns(s.with_perspective(self.spec_perspective()), None, r),
    {
        self.stack.pop_as(self.perspective, None)
    }

    /// Pops at an offset (LIFO, FIFO) or position (Indexed).
    pub fn pop_at(&self, param: usize) -> (r: Result<T>)
        ensures
            exists|s: StackView<T>| s.wf() && #[trigger] pop_returns(
                s.with_perspective(self.spec_perspective()),
                Some(PopParam::Index(param)),
                r,
            ),
    {
        self.stack.pop_as(self.perspective, Some(PopParam::Index(param)))
    }

    /// Pops by label; a view that is not Hash fails `KeyNotFound`.
    pub fn pop_key(&self, key: &str) -> (r: Result<T>)
        ensures
            self.spec_perspective() != Perspective::Hash ==> r == Err::<T, StackError>(StackError::KeyNotFound),
            self.spec_perspective() == Perspective::Hash ==> exists|s: StackView<T>, k: String|
                s.wf() && k@ == key@ && #[trigger] pop_returns(s.with_perspective(Perspective::Hash), Some(PopParam::Key(k)), r),
    {
        if self.perspective != Perspective::Hash {
            return Err(StackError::KeyNotFound);
        }
        let k = key.to_owned();
        let ghost kk = k;
        let r = self.stack.pop_as(self.perspective, Some(PopParam::Key(k)));
        assert(kk@ == key@);
        r
    }

    /// Reads by the view's default rule.
    pub fn peek(&self) -> (r: Result<T>)
        ensures
            exists|s: StackView<T>| s.wf() && #[trigger] peek_returns(s.with_perspective(self.spec_perspective()), None, r),
    {
        self.stack.peek_as(self.perspective, None)
    }

    /// Reads at an offset (LIFO, FIFO) or position (Indexed).
    pub fn peek_at(&self, param: usize) -> (r: Result<T>)
        ensures
            exists|s: StackView<T>| s.wf() && #[trigger] peek_returns(
                s.with_perspective(self.spec_perspective()),
                Some(PopParam::Index(param)),
                r,
            ),
    {
        self.stack.peek_as(self.perspective, Some(PopParam::Index(param)))
    }

    /// Reads by label; a view that is not Hash fails `KeyNotFound`.
    pub fn peek_key(&self, key: &str) -> (r: Result<T>)
        ensures
            self.spec_perspective() != Perspective::Hash ==> r == Err::<T, StackError>(StackError::KeyNotFound),
            self.spec_perspective() == Perspective::Hash ==> exists|s: StackView<T>, k: String|
                s.wf() && k@ == key@ && #[trigger] peek_returns(s.with_perspective(Perspective::Hash), Some(PopParam::Key(k)), r),
    {
        if self.perspective != Perspective::Hash {
            return Err(StackError::KeyNotFound);
        }
        let k = key.to_owned();
        let ghost kk = k;
        let r = self.stack.peek_as(self.perspective, Some(PopParam::Key(k)));
        assert(kk@ == key@);
        r
    }

    /// Pushes through to the stack; the view's perspective plays no part.
    pub fn push(&self, value: T) -> (r: Result<()>)
        ensures
            exists|s: StackView<T>| s.wf() && #[trigger] push_returns(s, r),
    {
        self.stack.push(value)
    }

    /// Pushes with a label through to the stack.
    pub fn push_keyed(&self, key: &str, value: T) -> (r: Result<()>)
        ensures
            exists|s: StackView<T>| s.wf() && #[trigger] push_keyed_returns(s, r),
    {
        self.stack.push_keyed(key, value)
    }

    pub fn len(&self) -> (r: usize) {
        self.stack.len()
    }

    pub fn is_empty(&self) -> (r: bool) {
        self.stack.is_empty()
    }
}

impl<T: Clone> Clone for View<T> {
    fn clone(&self) -> (r: View<T>)
        ensures
            r.spec_perspective() == self.spec_perspective(),
            r.spec_stack() == self.spec_stack(),
    {
        View { stack: share(&self.stack), perspective: self.perspective }
    }
}

/// An owner view (LIFO) and a thief view (FIFO) on one stack.
#[verifier::reject_recursive_types(T)]
pub struct WorkStealViews<T> {
    pub owner: View<T>,
    pub thief: View<T>,
}

impl<T: Clone> WorkStealViews<T> {
    pub fn new(stack: Arc<Stack<T>>) -> (r: WorkStealViews<T>)
        ensures
            r.owner.spec_perspective() == Perspective::LIFO,
            r.thief.spec_perspective() == Perspective::FIFO,
            r.owner.spec_stack() == *stack,
            r.thief.spec_stack() == *stack,
    {
        WorkStealViews { owner: View::lifo(share(&stack)), thief: View::fifo(stack) }
    }
}

} // verus!
