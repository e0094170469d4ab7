//! The thread-shared stack: one lock around the state of `inner`.
//!
//! Each call holds the lock for its own duration only, so between two calls other
//! threads may change the state. A result is therefore described as what the
//! operation gives on some well-formed state: the one the call found.
use vstd::prelude::*;
use crate::error::{Result, StackError};
use crate::inner::StackInner;
use crate::lock::{Exclusive, Held};
use crate::model::{
    Perspective, PopParam, StackView, peek_returns, pop_returns, push_keyed_returns, push_returns,
};

verus! {

/// A stack state that is well-formed by construction.
pub struct Checked<T> {
    inner: StackInner<T>,
}

impl<T> Checked<T> {
    #[verifier::type_invariant]
    spec fn inv(self) -> bool {
        self.inner.wf()
    }

    /// The state held.
    pub closed spec fn state(self) -> StackView<T> {
        self.inner@
    }
}

impl<T: Clone> Checked<T> {
    fn placeholder() -> (r: Checked<T>) {
        Checked { inner: StackInner::new(Perspective::LIFO, 0) }
    }

    fn open(self) -> (r: StackInner<T>)
        ensures
            r.wf(),
            r@ == self.state(),
    {
        proof {
            use_type_invariant(&self);
        }
        let Checked { inner } = self;
        inner
    }
}

/// A thread-safe stack whose perspective decides how pops and peeks read it.
#[verifier::reject_recursive_types(T)]
pub struct Stack<T> {
    cell: Exclusive<Checked<T>>,
}

impl<T: Clone> Stack<T> {
    fn from_state(inner: StackInner<T>) -> (r: Stack<T>)
        requires
            inner.wf(),
    {
        Stack { cell: Exclusive::new(Checked { inner }) }
    }

    /// Takes the lock and the state out of it.
    fn enter(&self) -> (r: (Held<'_, Checked<T>>, StackInner<T>))
        ensures
            r.1.wf(),
            r.1@.wf(),
    {
        let (held, c) = self.cell.acquire(Checked::placeholder());
        let st = c.open();
        proof {
            st.lemma_view_wf();
        }
        (held, st)
    }

    /// An empty, unbounded stack.
    pub fn new(perspective: Perspective) -> (r: Stack<T>) {
        Stack::from_state(StackInner::new(perspective, 0))
    }

    /// An empty stack holding at most `capacity` live elements (0: unbounded).
    pub fn with_capacity(perspective: Perspective, capacity: usize) -> (r: Stack<T>) {
        Stack::from_state(StackInner::new(perspective, capacity))
    }

    /// Appends `value`; fails `Frozen`, `Full`, or `KeyRequired` under Hash.
    pub fn push(&self, value: T) -> (r: Result<()>)
        ensures
            exists|s: StackView<T>| s.wf() && #[trigger] push_returns(s, r),
    {
        let (held, mut st) = self.enter();
        let ghost s = st@;
        let r = st.push(value);
        held.release(Checked { inner: st });
        assert(push_returns(s, r));
        r
    }

    /// Appends `value` under `key`; under Hash an indexed key is overwritten in place.
    pub fn push_keyed(&self, key: &str, value: T) -> (r: Result<()>)
        ensures
            exists|s: StackView<T>| s.wf() && #[trigger] push_keyed_returns(s, r),
    {
        let (held, mut st) = self.enter();
        let ghost s = st@;
        let r = st.push_keyed(key, value);
        held.release(Checked { inner: st });
        assert(push_keyed_returns(s, r));
        r
    }

    fn pop_with(&self, param: Option<PopParam>) -> (r: Result<T>)
        ensures
            exists|s: StackView<T>| s.wf() && #[trigger] pop_returns(s, param, r),
    {
        let (held, mut st) = self.enter();
        let ghost s = st@;
        let r = st.pop_inner(param);
        held.release(Checked { inner: st });
        assert(pop_returns(s, param, r));
        r
    }

    fn peek_with(&self, param: Option<PopParam>) -> (r: Result<T>)
        ensures
            exists|s: StackView<T>| s.wf() && #[trigger] peek_returns(s, param, r),
    {
        let (held, st) = self.enter();
        let ghost s = st@;
        let r = st.peek_inner(param);
        held.release(Checked { inner: st });
        assert(peek_returns(s, param, r));
        r
    }

    /// Pops by the current perspective's default rule.
    pub fn pop(&self) -> (r: Result<T>)
        ensures
            exists|s: StackView<T>| s.wf() && #[trigger] pop_returns(s, None, r),
    {
        self.pop_with(None)
    }

    /// Pops at an offset (LIFO, FIFO) or position (Indexed).
    pub fn pop_at(&self, param: usize) -> (r: Result<T>)
        ensures
            exists|s: StackView<T>| s.wf() && #[trigger] pop_returns(s, Some(PopParam::Index(param)), r),
    {
        self.pop_with(Some(PopParam::Index(param)))
    }

    /// Pops by label (Hash).
    pub fn pop_key(&self, key: &str) -> (r: Result<T>)
        ensures
            exists|s: StackView<T>, k: String| s.wf() && k@ == key@
                && #[trigger] pop_returns(s, Some(PopParam::Key(k)), r),
    {
        let k = key.to_owned();
        let ghost kk = k;
        let r = self.pop_with(Some(PopParam::Key(k)));
        assert(kk@ == key@);
        r
    }

    /// Reads by the current perspective's default rule; ignores `frozen`.
    pub fn peek(&self) -> (r: Result<T>)
        ensures
            exists|s: StackView<T>| s.wf() && #[trigger] peek_returns(s, None, r),
    {
        self.peek_with(None)
    }

    /// Reads at an offset (LIFO, FIFO) or position (Indexed).
    pub fn peek_at(&self, param: usize) -> (r: Result<T>)
        ensures
            exists|s: StackView<T>| s.wf() && #[trigger] peek_returns(s, Some(PopParam::Index(param)), r),
    {
        self.peek_with(Some(PopParam::Index(param)))
    }

    /// Reads by label (Hash).
    pub fn peek_key(&self, key: &str) -> (r: Result<T>)
        ensures
            exists|s: StackView<T>, k: String| s.wf() && k@ == key@
                && #[trigger] peek_returns(s, Some(PopParam::Key(k)), r),
    {
        let k = key.to_owned();
        let ghost kk = k;
        let r = self.peek_with(Some(PopParam::Key(k)));
        assert(kk@ == key@);
        r
    }

    /// Number of live elements.
    pub fn len(&self) -> (r: usize)
        ensures
            exists|s: StackView<T>| s.wf() && #[trigger] s.len() == r,
    {
        let (held, st) = self.enter();
        let r = st.len();
        assert(st@.len() == r);
        held.release(Checked { inner: st });
        r
    }

    pub fn is_empty(&self) -> (r: bool)
        ensures
            exists|s: StackView<T>| s.wf() && #[trigger] s.is_empty() == r,
    {
        let (held, st) = self.enter();
        let r = st.is_empty();
        assert(st@.is_empty() == r);
        held.release(Checked { inner: st });
        r
    }

    /// Drops every element.
    pub fn clear(&self) {
        let (held, mut st) = self.enter();
        st.clear();
        held.release(Checked { inner: st });
    }

    /// Compacts, then refuses every later push and pop.
    pub fn freeze(&self) {
        let (held, mut st) = self.enter();
        st.freeze();
        held.release(Checked { inner: st });
    }

    pub fn is_frozen(&self) -> (r: bool)
        ensures
            exists|s: StackView<T>| s.wf() && #[trigger] s.frozen == r,
    {
        let (held, st) = self.enter();
        let r = st.is_frozen();
        assert(st@.frozen == r);
        held.release(Checked { inner: st });
        r
    }

    /// Marks the stack closed; pushes are still accepted.
    pub fn close(&self) {
        let (held, mut st) = self.enter();
        st.close();
        held.release(Checked { inner: st });
    }

    pub fn is_closed(&self) -> (r: bool)
        ensures
            exists|s: StackView<T>| s.wf() && #[trigger] s.closed == r,
    {
        let (held, st) = self.enter();
        let r = st.is_closed();
        assert(st@.closed == r);
        held.release(Checked { inner: st });
        r
    }

    pub fn perspective(&self) -> (r: Perspective)
        ensures
            exists|s: StackView<T>| s.wf() && #[trigger] s.perspective == r,
    {
        let (held, st) = self.enter();
        let r = st.perspective();
        assert(st@.perspective == r);
        held.release(Checked { inner: st });
        r
    }

    /// Switches perspective; entering Hash labels unlabelled slots and rebuilds the index.
    pub fn set_perspective(&self, p: Perspective) {
        let (held, mut st) = self.enter();
        st.set_perspective(p);
        held.release(Checked { inner: st });
    }

    /// The capacity (0: unbounded).
    pub fn capacity(&self) -> (r: usize)
        ensures
            exists|s: StackView<T>| s.wf() && #[trigger] s.capacity == r as int,
    {
        let (held, st) = self.enter();
        let r = st.capacity();
        assert(st@.capacity == r as int);
        held.release(Checked { inner: st });
        r
    }

    /// Pops as if the perspective were `p`, all under one hold of the lock.
    pub fn pop_as(&self, p: Perspective, param: Option<PopParam>) -> (r: Result<T>)
        ensures
            exists|s: StackView<T>| s.wf() && #[trigger] pop_returns(s.with_perspective(p), param, r),
    {
        let (held, mut st) = self.enter();
        let ghost s = st@;
        let r = st.pop_as(p, param);
        held.release(Checked { inner: st });
        assert(pop_returns(s.with_perspective(p), param, r));
        r
    }

    /// Peeks as if the perspective were `p`, all under one hold of the lock.
    pub fn peek_as(&self, p: Perspective, param: Option<PopParam>) -> (r: Result<T>)
        ensures
            exists|s: StackView<T>| s.wf() && #[trigger] peek_returns(s.with_perspective(p), param, r),
    {
        let (held, mut st) = self.enter();
        let ghost s = st@;
        let r = st.peek_as(p, param);
        held.release(Checked { inner: st });
        assert(peek_returns(s.with_perspective(p), param, r));
        r
    }

    /// Takes the lock for a batch of unlocked operations; it is let go when the guard drops.
    pub fn lock(&self) -> (r: StackGuard<'_, T>)
        ensures
            r@.wf(),
    {
        let (held, state) = self.cell.acquire(Checked::placeholder());
        proof {
            use_type_invariant(&state);
            state.inner.lemma_view_wf();
        }
        StackGuard { held, state }
    }
}

/// Exclusive access to a stack's state for a batch of operations.
#[verifier::reject_recursive_types(T)]
pub struct StackGuard<'a, T: Clone> {
    held: Held<'a, Checked<T>>,
    state: Checked<T>,
}

impl<'a, T: Clone> View for StackGuard<'a, T> {
    type V = StackView<T>;

    closed spec fn view(&self) -> StackView<T> {
        self.state.state()
    }
}

impl<'a, T: Clone> Drop for StackGuard<'a, T> {
    fn drop(&mut self)
        opens_invariants none
        no_unwind
    {
        self.held.restore(&mut self.state);
    }
}

impl<'a, T: Clone> StackGuard<'a, T> {
    fn take_state(&mut self) -> (r: StackInner<T>)
        ensures
            r.wf(),
            r@ == old(self)@,
            final(self).held == old(self).held,
    {
        let mut c = Checked::placeholder();
        core::mem::swap(&mut c, &mut self.state);
        c.open()
    }

    /// Pops without the frozen check: FIFO takes the oldest, the others the newest.
    pub fn pop_raw(&mut self) -> (r: Result<T>)
        ensures
            final(self)@.wf(),
            old(self)@.is_empty() ==> r == Err::<T, StackError>(StackError::Empty) && final(self)@ == old(self)@,
            !old(self)@.is_empty() ==> {
                &&& r is Ok
                &&& cloned(old(self)@.slots[old(self)@.pop_raw_slot()], r->Ok_0)
                &&& final(self)@ == old(self)@.after_pop_raw()
            },
    {
        let mut st = self.take_state();
        let r = st.pop_raw();
        proof {
            st.lemma_view_wf();
        }
        self.state = Checked { inner: st };
        r
    }

    /// Appends unlabelled, unless frozen or full.
    pub fn push_raw(&mut self, value: T) -> (r: Result<()>)
        ensures
            final(self)@.wf(),
            old(self)@.frozen ==> r == Err::<(), StackError>(StackError::Frozen) && final(self)@ == old(self)@,
            !old(self)@.frozen && old(self)@.is_full() ==> r == Err::<(), StackError>(StackError::Full)
                && final(self)@ == old(self)@,
            !old(self)@.frozen && !old(self)@.is_full() ==> r == Ok::<(), StackError>(())
                && final(self)@ == old(self)@.appended(value, None),
    {
        let mut st = self.take_state();
        let r = st.push_raw(value);
        proof {
            st.lemma_view_wf();
        }
        self.state = Checked { inner: st };
        r
    }

    /// The element the index maps `key` to.
    pub fn get_raw(&self, key: &str) -> (r: Option<&T>)
        ensures
            r == (if self@.index.contains_key(key@) && self@.index[key@] < self@.slots.len() {
                Some(&self@.slots[self@.index[key@] as int])
            } else {
                None::<&T>
            }),
    {
        proof {
            use_type_invariant(&self.state);
        }
        self.state.inner.get_raw(key)
    }

    /// Under Hash, sets the element of `key`, appending it if the key is new.
    pub fn set_raw(&mut self, key: &str, value: T) -> (r: Result<()>)
        ensures
            final(self)@.wf(),
            old(self)@.perspective != Perspective::Hash ==> r == Err::<(), StackError>(StackError::KeyRequired)
                && final(self)@ == old(self)@,
            old(self)@.perspective == Perspective::Hash ==> r == Ok::<(), StackError>(())
                && final(self)@ == old(self)@.after_push_keyed(key@, value),
    {
        let mut st = self.take_state();
        let r = st.set_raw(key, value);
        proof {
            st.lemma_view_wf();
        }
        self.state = Checked { inner: st };
        r
    }

    /// The live element at position `index`, counted from the oldest.
    pub fn get_at_raw(&self, index: usize) -> (r: Option<&T>)
        ensures
            r == (if index < self@.len() {
                Some(&self@.slots[self@.head + index])
            } else {
                None::<&T>
            }),
    {
        proof {
            use_type_invariant(&self.state);
        }
        self.state.inner.get_at_raw(index)
    }

    /// Sets the live element at position `index`, first extending the stack with
    /// copies of `value` when the position is past the end.
    pub fn set_at_raw(&mut self, index: usize, value: T) -> (r: Result<()>)
        ensures
            final(self)@.wf(),
            old(self)@.head + index >= usize::MAX ==> r == Err::<(), StackError>(StackError::IndexOutOfBounds)
                && final(self)@ == old(self)@,
            old(self)@.head + index < usize::MAX ==> {
                let t = old(self)@.head + index;
                let n = old(self)@.slots.len() as int;
                &&& r == Ok::<(), StackError>(())
                &&& final(self)@.slots.len() == if t < n { n } else { t + 1 }
                &&& final(self)@.slots[t] == value
                &&& forall|j: int| 0 <= j < n && j != t ==> final(self)@.slots[j] == old(self)@.slots[j]
                &&& forall|j: int| n <= j < t ==> cloned(value, #[trigger] final(self)@.slots[j])
                &&& forall|j: int| 0 <= j < n ==> final(self)@.labels[j] == old(self)@.labels[j]
                &&& forall|j: int| n <= j < final(self)@.slots.len() ==> final(self)@.labels[j] == None::<Seq<char>>
                &&& final(self)@ == (StackView { slots: final(self)@.slots, labels: final(self)@.labels, ..old(self)@ })
            },
    {
        let mut st = self.take_state();
        let r = st.set_at_raw(index, value);
        proof {
            st.lemma_view_wf();
        }
        self.state = Checked { inner: st };
        r
    }

    /// Number of live elements.
    pub fn len(&self) -> (r: usize)
        ensures
            r == self@.len(),
    {
        proof {
            use_type_invariant(&self.state);
        }
        self.state.inner.len()
    }

    pub fn is_empty(&self) -> (r: bool)
        ensures
            r == self@.is_empty(),
    {
        proof {
            use_type_invariant(&self.state);
        }
        self.state.inner.is_empty()
    }

    /// The live elements, oldest first, for bulk reads.
    pub fn as_slice(&self) -> (r: &[T])
        ensures
            r@ == self@.live(),
    {
        proof {
            use_type_invariant(&self.state);
        }
        self.state.inner.as_slice()
    }
}

} // verus!
