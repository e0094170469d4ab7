//! Work stealing: a Chase-Lev style deque, and the same owner/thief contract
//! built from one stack and two views.
use vstd::prelude::*;
use std::sync::Arc;
use core::sync::atomic::{AtomicBool, AtomicI64, Ordering};
use crate::bytes::{be_u64, from_be_u64, lemma_be_u64_round_trip, lemma_i64_bits, push_be_u64, push_slice, read_be_u64};
use crate::lock::Exclusive;
use crate::error::StackError;
use crate::model::{Perspective, StackView, pop_returns, push_returns};
use crate::stack::Stack;
use crate::view::{View, share};
use vstd::view::View as _;

verus! {

/// A unit of work: an id and an opaque payload.
#[derive(Debug, Clone)]
pub struct Task {
    pub id: i64,
    pub data: Vec<u8>,
}

/// The encoding of a task: the id as eight big-endian bytes, then the payload.
pub open spec fn task_bytes(id: i64, data: Seq<u8>) -> Seq<u8> {
    be_u64(id as u64) + data
}

/// The id and payload that `b` encodes, if it is long enough.
pub open spec fn task_of_bytes(b: Seq<u8>) -> Option<(i64, Seq<u8>)> {
    if b.len() < 8 {
        None
    } else {
        Some((from_be_u64(b.take(8)) as i64, b.skip(8)))
    }
}

/// Decoding the encoding of a task gives back its id and payload.
pub proof fn lemma_task_round_trip(id: i64, data: Seq<u8>)
    ensures
        task_of_bytes(task_bytes(id, data)) == Some((id, data)),
{
    let b = task_bytes(id, data);
    assert(b.take(8) =~= be_u64(id as u64));
    assert(b.skip(8) =~= data);
    lemma_be_u64_round_trip(id as u64);
    lemma_i64_bits(id);
}

impl Task {
    pub fn new(id: i64, data: Vec<u8>) -> (r: Task)
        ensures
            r.id == id,
            r.data@ == data@,
    {
        Task { id, data }
    }

    /// The id as eight big-endian bytes, then the payload.
    pub fn to_bytes(&self) -> (r: Vec<u8>)
        ensures
            r@ == task_bytes(self.id, self.data@),
    {
        let mut buf: Vec<u8> = Vec::new();
        push_be_u64(&mut buf, self.id as u64);
        push_slice(&mut buf, self.data.as_slice());
        buf
    }

    /// Decodes a task; `None` when fewer than eight bytes are given.
    pub fn from_bytes(b: &[u8]) -> (r: Option<Task>)
        ensures
            match task_of_bytes(b@) {
                None => r is None,
                Some((id, data)) => r is Some && r->Some_0.id == id && r->Some_0.data@ == data,
            },
    {
        if b.len() < 8 {
            return None;
        }
        let id = read_be_u64(b, 0) as i64;
        assert(b@.subrange(0, 8) =~= b@.take(8));
        let rest = vstd::slice::slice_subrange(b, 8, b.len());
        let data = vstd::slice::slice_to_vec(rest);
        assert(data@ =~= b@.skip(8));
        Some(Task { id, data })
    }
}

/// Chase-Lev style deque: the owner pushes and pops at the bottom, thieves take
/// from the top. Each slot has its own lock; `bottom` and `top` are atomic.
pub struct WSDeque {
    tasks: Vec<Exclusive<Option<Task>>>,
    bottom: AtomicI64,
    top: AtomicI64,
    capacity: usize,
}

impl WSDeque {
    #[verifier::type_invariant]
    spec fn inv(self) -> bool {
        self.tasks@.len() == self.capacity
    }

    /// The fixed number of slots.
    pub closed spec fn spec_capacity(&self) -> nat {
        self.capacity as nat
    }

    /// A deque with `capacity` empty slots.
    pub fn new(capacity: usize) -> (r: WSDeque)
        ensures
            r.spec_capacity() == capacity,
    {
        let mut tasks: Vec<Exclusive<Option<Task>>> = Vec::new();
        let mut i: usize = 0;
        while i < capacity
            invariant
                0 <= i <= capacity,
                tasks@.len() == i,
            decreases capacity - i,
        {
            tasks.push(Exclusive::new(None));
            i = i + 1;
        }
        WSDeque { tasks, bottom: AtomicI64::new(0), top: AtomicI64::new(0), capacity }
    }

    /// The slot position of cursor value `c`.
    fn slot(&self, c: i64) -> (r: usize)
        requires
            self.capacity > 0,
        ensures
            r < self.tasks@.len(),
    {
        proof {
            use_type_invariant(self);
        }
        (c as usize) % self.capacity
    }

    fn take_slot(&self, idx: usize) -> (r: Option<Task>)
        requires
            idx < self.tasks@.len(),
    {
        let (held, task) = self.tasks[idx].acquire(None);
        held.release(None);
        task
    }

    fn fill_slot(&self, idx: usize, task: Option<Task>)
        requires
            idx < self.tasks@.len(),
    {
        let (held, _previous) = self.tasks[idx].acquire(None);
        held.release(task);
    }

    /// Owner only: stores `task` at the bottom; `false` when the deque is full.
    pub fn push(&self, task: Task) -> (r: bool)
        ensures
            exists|b: i64, t: i64| r == push_fits(b as int, t as int, self.spec_capacity()),
    {
        let b = self.bottom.load(Ordering::Relaxed);
        let t = self.top.load(Ordering::Acquire);
        if !push_allowed(b, t, self.capacity) {
            assert(!push_fits(b as int, t as int, self.spec_capacity()));
            return false;
        }
        let idx = self.slot(b);
        self.fill_slot(idx, Some(task));
        self.bottom.store(b.wrapping_add(1), Ordering::Release);
        assert(push_fits(b as int, t as int, self.spec_capacity()));
        true
    }

    /// Owner only: takes the newest task. When only one is left it races the
    /// thieves with one compare-and-swap on `top`; the loser gets `None`.
    pub fn pop(&self) -> (r: Option<Task>)
        ensures
            exists|t: i64, b: i64, won: bool, slot: Option<Task>|
                r == pop_result(t as int, b as int, won, slot),
            self.spec_capacity() == 0 ==> r is None,
    {
        let b = self.bottom.load(Ordering::Relaxed).wrapping_sub(1);
        self.bottom.store(b, Ordering::SeqCst);
        let t = self.top.load(Ordering::SeqCst);
        if t <= b && self.capacity > 0 {
            let idx = self.slot(b);
            let task = self.take_slot(idx);
            let mut won = true;
            if t == b {
                let next = t.wrapping_add(1);
                won = self.top.compare_exchange(t, next, Ordering::SeqCst, Ordering::Relaxed).is_ok();
                self.bottom.store(next, Ordering::Relaxed);
            }
            let r = pop_outcome(t, b, won, task);
            assert(r == pop_result(t as int, b as int, won, task));
            r
        } else {
            self.bottom.store(t, Ordering::Relaxed);
            assert(pop_result(1i64 as int, 0i64 as int, true, None::<Task>) == None::<Task>);
            None
        }
    }

    /// Thief: takes the oldest task. On a lost race the task read is put back
    /// and `None` returned.
    pub fn steal(&self) -> (r: Option<Task>)
        ensures
            exists|t: i64, b: i64, won: bool, slot: Option<Task>|
                r == steal_result(t as int, b as int, won, slot),
            self.spec_capacity() == 0 ==> r is None,
    {
        let t = self.top.load(Ordering::Acquire);
        let b = self.bottom.load(Ordering::Acquire);
        if t >= b || self.capacity == 0 {
            assert(steal_result(0i64 as int, 0i64 as int, true, None::<Task>) == None::<Task>);
            return None;
        }
        let idx = self.slot(t);
        let task = self.take_slot(idx);
        let won = self.top.compare_exchange(t, t.wrapping_add(1), Ordering::SeqCst, Ordering::Relaxed).is_ok();
        if !won && task.is_some() {
            self.fill_slot(idx, task);
            return None;
        }
        steal_outcome(t, b, won, task)
    }

    /// Approximate number of tasks (`bottom - top`, at least 0); advisory under concurrency.
    pub fn len(&self) -> (r: usize)
        ensures
            exists|b: i64, t: i64| r == size_of_cursors(b as int, t as int),
    {
        let b = self.bottom.load(Ordering::Relaxed);
        let t = self.top.load(Ordering::Relaxed);
        cursor_size(b, t)
    }

    pub fn is_empty(&self) -> (r: bool)
        ensures
            exists|b: i64, t: i64| r == (size_of_cursors(b as int, t as int) == 0),
    {
        self.len() == 0
    }
}

/// A push with cursors `b` (bottom) and `t` (top) finds room: the deque holds
/// `b - t` tasks, fewer than its capacity.
pub open spec fn push_fits(b: int, t: int, cap: nat) -> bool {
    0 <= b - t < cap
}

/// What a pop returns, given `t` (top), `b` (the bottom after its decrement),
/// whether the race for the last task was won, and the task taken from slot `b`.
pub open spec fn pop_result(t: int, b: int, won: bool, slot: Option<Task>) -> Option<Task> {
    if t > b || (t == b && !won) {
        None
    } else {
        slot
    }
}

/// What a steal returns, given `t` (top), `b` (bottom), whether its
/// compare-and-swap on `top` won, and the task taken from slot `t`.
pub open spec fn steal_result(t: int, b: int, won: bool, slot: Option<Task>) -> Option<Task> {
    if t >= b || !won {
        None
    } else {
        slot
    }
}

/// The number of tasks between the cursors, clamped to `0..=usize::MAX`.
pub open spec fn size_of_cursors(b: int, t: int) -> usize {
    if b - t <= 0 {
        0
    } else if b - t > usize::MAX {
        usize::MAX
    } else {
        (b - t) as usize
    }
}

/// Whether a push finds room (see [`push_fits`]).
pub fn push_allowed(b: i64, t: i64, cap: usize) -> (r: bool)
    ensures
        r == push_fits(b as int, t as int, cap as nat),
{
    let size = (b as i128) - (t as i128);
    size >= 0 && size < cap as i128
}

/// The result of a pop (see [`pop_result`]).
pub fn pop_outcome(t: i64, b: i64, won: bool, slot: Option<Task>) -> (r: Option<Task>)
    ensures
        r == pop_result(t as int, b as int, won, slot),
{
    if t > b || (t == b && !won) {
        None
    } else {
        slot
    }
}

/// The result of a steal (see [`steal_result`]).
pub fn steal_outcome(t: i64, b: i64, won: bool, slot: Option<Task>) -> (r: Option<Task>)
    ensures
        r == steal_result(t as int, b as int, won, slot),
{
    if t >= b || !won {
        None
    } else {
        slot
    }
}

/// The number of tasks between the cursors (see [`size_of_cursors`]).
pub fn cursor_size(b: i64, t: i64) -> (r: usize)
    ensures
        r == size_of_cursors(b as int, t as int),
{
    let size = (b as i128) - (t as i128);
    if size <= 0 {
        0
    } else if size > usize::MAX as i128 {
        usize::MAX
    } else {
        size as usize
    }
}

/// A deque's cursors and slots as one thread sees them, with no other thread
/// running: every compare-and-swap wins.
pub struct DequeView {
    pub bottom: int,
    pub top: int,
    pub slots: Seq<Option<Task>>,
}

impl DequeView {
    pub open spec fn cap(self) -> int {
        self.slots.len() as int
    }

    /// Number of tasks held.
    pub open spec fn size(self) -> int {
        self.bottom - self.top
    }

    pub open spec fn wf(self) -> bool {
        &&& self.cap() > 0
        &&& self.top >= 0
        &&& 0 <= self.size() <= self.cap()
    }

    /// The slot of the `i`-th task, counted from the oldest.
    pub open spec fn pos(self, i: int) -> int {
        (self.top + i) % self.cap()
    }

    /// The tasks held, oldest first.
    pub open spec fn contents(self) -> Seq<Option<Task>> {
        Seq::new(self.size() as nat, |i: int| self.slots[self.pos(i)])
    }

    /// A push by the owner: the state after it and its result.
    pub open spec fn pushed(self, task: Task) -> (DequeView, bool) {
        if push_fits(self.bottom, self.top, self.cap() as nat) {
            (DequeView {
                bottom: self.bottom + 1,
                slots: self.slots.update(self.bottom % self.cap(), Some(task)),
                ..self
            }, true)
        } else {
            (self, false)
        }
    }

    /// A pop by the owner: the state after it and its result.
    pub open spec fn popped(self) -> (DequeView, Option<Task>) {
        let b = self.bottom - 1;
        let t = self.top;
        if t <= b {
            let i = b % self.cap();
            let slots = self.slots.update(i, None);
            let r = pop_result(t, b, true, self.slots[i]);
            if t == b {
                (DequeView { bottom: t + 1, top: t + 1, slots }, r)
            } else {
                (DequeView { bottom: b, top: t, slots }, r)
            }
        } else {
            (DequeView { bottom: t, ..self }, None)
        }
    }

    /// A steal by a thief: the state after it and its result.
    pub open spec fn stolen(self) -> (DequeView, Option<Task>) {
        if self.top >= self.bottom {
            (self, None)
        } else {
            let i = self.top % self.cap();
            (DequeView { top: self.top + 1, slots: self.slots.update(i, None), ..self },
             steal_result(self.top, self.bottom, true, self.slots[i]))
        }
    }
}

proof fn lemma_positions_distinct(t: int, i: int, j: int, m: int)
    requires
        0 < m,
        0 <= i < j < m,
    ensures
        (t + i) % m != (t + j) % m,
{
    vstd::arithmetic::div_mod::lemma_fundamental_div_mod(t + i, m);
    vstd::arithmetic::div_mod::lemma_fundamental_div_mod(t + j, m);
    if (t + i) % m == (t + j) % m {
        let k = (t + j) / m - (t + i) / m;
        assert(j - i == m * k) by (nonlinear_arith)
            requires
                t + i == m * ((t + i) / m) + (t + i) % m,
                t + j == m * ((t + j) / m) + (t + j) % m,
                (t + i) % m == (t + j) % m,
                k == (t + j) / m - (t + i) / m,
        {}
        assert(false) by (nonlinear_arith)
            requires
                j - i == m * k,
                0 < j - i < m,
        {}
    }
}

/// A push succeeds exactly when there is room, and appends the task as the newest.
pub proof fn lemma_deque_push(d: DequeView, task: Task)
    requires
        d.wf(),
    ensures
        d.pushed(task).1 == (d.size() < d.cap()),
        d.pushed(task).0.wf(),
        d.pushed(task).1 ==> d.pushed(task).0.contents() == d.contents().push(Some(task)),
        !d.pushed(task).1 ==> d.pushed(task).0 == d,
{
    if d.size() < d.cap() {
        let e = d.pushed(task).0;
        assert(d.bottom % d.cap() == d.pos(d.size()));
        assert forall|i: int| 0 <= i < d.size() implies e.pos(i) != d.bottom % d.cap() by {
            lemma_positions_distinct(d.top, i, d.size(), d.cap());
        }
        assert(e.contents() =~= d.contents().push(Some(task)));
    }
}

/// A pop returns the newest task and removes it; on an empty deque it returns
/// `None` and leaves the deque empty.
pub proof fn lemma_deque_pop(d: DequeView)
    requires
        d.wf(),
    ensures
        d.popped().0.wf(),
        d.size() > 0 ==> d.popped().1 == d.contents().last()
            && d.popped().0.contents() == d.contents().drop_last(),
        d.size() == 0 ==> d.popped().1 is None && d.popped().0.contents().len() == 0,
{
    let e = d.popped().0;
    if d.size() > 0 {
        let b = d.bottom - 1;
        assert(b % d.cap() == d.pos(d.size() - 1));
        assert forall|i: int| 0 <= i < d.size() - 1 implies e.pos(i) != b % d.cap() by {
            lemma_positions_distinct(d.top, i, d.size() - 1, d.cap());
        }
        assert(e.contents() =~= d.contents().drop_last());
    } else {
        assert(e.contents() =~= Seq::<Option<Task>>::empty());
    }
}

/// A steal returns the oldest task and removes it; on an empty deque it
/// returns `None` and changes nothing.
pub proof fn lemma_deque_steal(d: DequeView)
    requires
        d.wf(),
    ensures
        d.stolen().0.wf(),
        d.size() > 0 ==> d.stolen().1 == d.contents()[0]
            && d.stolen().0.contents() == d.contents().drop_first(),
        d.size() == 0 ==> d.stolen().1 is None && d.stolen().0 == d,
{
    if d.size() > 0 {
        let e = d.stolen().0;
        assert(d.top % d.cap() == d.pos(0));
        assert forall|i: int| 0 <= i < d.size() - 1 implies e.pos(i) != d.top % d.cap() by {
            assert(e.pos(i) == d.pos(i + 1));
            lemma_positions_distinct(d.top, 0, i + 1, d.cap());
        }
        assert(e.contents() =~= d.contents().drop_first());
    }
}

/// Work stealing on one byte stack: the owner pops newest first through a LIFO
/// view, thieves take oldest first through a FIFO view. Tasks travel encoded.
pub struct WSStack {
    stack: Arc<Stack<Vec<u8>>>,
    owner_view: View<Vec<u8>>,
    thief_view: View<Vec<u8>>,
    closed: AtomicBool,
}

/// `r` is what decoding the outcome `p` of a pop gives: the task its bytes
/// encode, or nothing when the pop failed or the bytes are too short.
pub open spec fn decodes_to(p: Result<Vec<u8>, StackError>, r: Option<Task>) -> bool {
    match p {
        Ok(b) => match task_of_bytes(b@) {
            Some((id, data)) => r is Some && r->Some_0.id == id && r->Some_0.data@ == data,
            None => r is None,
        },
        Err(_) => r is None,
    }
}

impl WSStack {
    #[verifier::type_invariant]
    spec fn inv(self) -> bool {
        &&& self.owner_view.spec_perspective() == Perspective::LIFO
        &&& self.thief_view.spec_perspective() == Perspective::FIFO
    }

    fn with_stack(stack: Stack<Vec<u8>>) -> (r: WSStack) {
        let stack = Arc::new(stack);
        let owner_view = View::lifo(share(&stack));
        let thief_view = View::fifo(share(&stack));
        WSStack { stack, owner_view, thief_view, closed: AtomicBool::new(false) }
    }

    /// An unbounded work-stealing stack.
    pub fn new() -> (r: WSStack) {
        WSStack::with_stack(Stack::new(Perspective::LIFO))
    }

    /// A work-stealing stack holding at most `capacity` tasks (0: unbounded).
    pub fn with_capacity(capacity: usize) -> (r: WSStack) {
        WSStack::with_stack(Stack::with_capacity(Perspective::LIFO, capacity))
    }

    /// Owner: pushes `task` encoded; `false` once closed or when the stack refuses it.
    pub fn push(&self, task: Task) -> (r: bool)
        ensures
            r ==> exists|s: StackView<Vec<u8>>| s.wf() && #[trigger] push_returns(s, Ok::<(), StackError>(())),
    {
        if self.closed.load(Ordering::Relaxed) {
            return false;
        }
        let outcome = self.owner_view.push(task.to_bytes());
        outcome.is_ok()
    }

    /// Owner: the newest task, if any decodes.
    pub fn pop(&self) -> (r: Option<Task>)
        ensures
            exists|s: StackView<Vec<u8>>, p: Result<Vec<u8>, StackError>|
                s.wf() && #[trigger] pop_returns(s.with_perspective(Perspective::LIFO), None, p)
                && decodes_to(p, r),
    {
        proof {
            use_type_invariant(self);
        }
        let p = self.owner_view.pop();
        let r = WSStack::decode(&p);
        assert(decodes_to(p, r));
        r
    }

    /// Thief: the oldest task, if any decodes.
    pub fn steal(&self) -> (r: Option<Task>)
        ensures
            exists|s: StackView<Vec<u8>>, p: Result<Vec<u8>, StackError>|
                s.wf() && #[trigger] pop_returns(s.with_perspective(Perspective::FIFO), None, p)
                && decodes_to(p, r),
    {
        proof {
            use_type_invariant(self);
        }
        let p = self.thief_view.pop();
        let r = WSStack::decode(&p);
        assert(decodes_to(p, r));
        r
    }

    fn decode(p: &Result<Vec<u8>, StackError>) -> (r: Option<Task>)
        ensures
            decodes_to(*p, r),
    {
        match p {
            Ok(b) => Task::from_bytes(b.as_slice()),
            Err(_) => None,
        }
    }

    pub fn len(&self) -> (r: usize) {
        self.stack.len()
    }

    pub fn is_empty(&self) -> (r: bool) {
        self.stack.is_empty()
    }

    /// Refuses later pushes and closes the underlying stack.
    pub fn close(&self) {
        self.closed.store(true, Ordering::Release);
        self.stack.close();
    }

    pub fn is_closed(&self) -> (r: bool) {
        self.closed.load(Ordering::Acquire)
    }
}

} // verus!
