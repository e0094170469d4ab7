//! The integer stack of the calculator, with arithmetic, bitwise, memory and
//! Forth-style shuffling operations.
use vstd::prelude::*;
use crate::calc::{ModalView, StackMode};
use crate::calc::memory::{Memory, load, store};

verus! {

/// Rust's `/` on integers: the quotient rounded toward zero.
pub open spec fn truncated_div(a: int, b: int) -> int {
    let q = (if a < 0 { -a } else { a }) / (if b < 0 { -b } else { b });
    if (a < 0) != (b < 0) { -q } else { q }
}

/// A stack of `i32` with a LIFO or FIFO mode; pushes always go on the end.
pub struct IntStack {
    data: Vec<i32>,
    mode: StackMode,
}

impl View for IntStack {
    type V = ModalView<i32>;

    closed spec fn view(&self) -> ModalView<i32> {
        ModalView { items: self.data@, mode: self.mode }
    }
}

impl IntStack {
    /// An empty LIFO stack.
    pub fn new() -> (r: IntStack)
        ensures
            r@.items == Seq::<i32>::empty(),
            r@.mode == StackMode::LIFO,
    {
        IntStack { data: Vec::new(), mode: StackMode::LIFO }
    }

    pub fn push(&mut self, value: i32)
        ensures
            final(self)@ == old(self)@.pushed(value),
    {
        self.data.push(value);
    }

    /// Takes the element the mode selects.
    pub fn pop(&mut self) -> (r: Option<i32>)
        ensures
            old(self)@.items.len() == 0 ==> r is None && final(self)@ == old(self)@,
            old(self)@.items.len() > 0 ==> r == Some(old(self)@.top()) && final(self)@ == old(self)@.popped(),
    {
        if self.data.len() == 0 {
            return None;
        }
        match self.mode {
            StackMode::FIFO => {
                let v = self.data.remove(0);
                assert(self.data@ =~= old(self).data@.drop_first());
                Some(v)
            },
            StackMode::LIFO => self.data.pop(),
        }
    }

    /// Pops a non-empty stack.
    fn take(&mut self) -> (r: i32)
        requires
            old(self)@.items.len() > 0,
        ensures
            r == old(self)@.top(),
            final(self)@ == old(self)@.popped(),
    {
        match self.pop() {
            Some(v) => v,
            None => 0,
        }
    }

    /// The element a pop would take.
    pub fn peek(&self) -> (r: Option<&i32>)
        ensures
            self@.items.len() == 0 ==> r is None,
            self@.items.len() > 0 ==> r == Some(&self@.top()),
    {
        if self.data.len() == 0 {
            return None;
        }
        match self.mode {
            StackMode::FIFO => Some(&self.data[0]),
            StackMode::LIFO => Some(&self.data[self.data.len() - 1]),
        }
    }

    /// Pushes a copy of the newest element; `false` on an empty stack.
    pub fn dup(&mut self) -> (r: bool)
        ensures
            r == (old(self)@.items.len() > 0),
            r ==> final(self)@ == old(self)@.pushed(old(self)@.items.last()),
            !r ==> final(self)@ == old(self)@,
    {
        if self.data.len() == 0 {
            return false;
        }
        let top = self.data[self.data.len() - 1];
        self.push(top);
        true
    }

    /// Exchanges the two newest elements; `false` with fewer than two.
    pub fn swap(&mut self) -> (r: bool)
        ensures
            r == (old(self)@.items.len() >= 2),
            r ==> final(self)@.mode == old(self)@.mode && final(self)@.items == ({
                let s = old(self)@.items;
                let n = s.len() as int;
                s.update(n - 1, s[n - 2]).update(n - 2, s[n - 1])
            }),
            !r ==> final(self)@ == old(self)@,
    {
        let len = self.data.len();
        if len < 2 {
            return false;
        }
        let x = self.data[len - 1];
        let y = self.data[len - 2];
        self.data.set(len - 1, y);
        self.data.set(len - 2, x);
        true
    }

    /// Pops and discards; `false` on an empty stack.
    pub fn drop(&mut self) -> (r: bool)
        ensures
            r == (old(self)@.items.len() > 0),
            r ==> final(self)@ == old(self)@.popped(),
            !r ==> final(self)@ == old(self)@,
    {
        self.pop().is_some()
    }

    pub fn set_mode(&mut self, mode: StackMode)
        ensures
            final(self)@ == (ModalView { items: old(self)@.items, mode }),
    {
        self.mode = mode;
    }

    /// Reverses the elements.
    pub fn flip(&mut self)
        ensures
            final(self)@ == (ModalView { items: old(self)@.items.reverse(), mode: old(self)@.mode }),
    {
        let n = self.data.len();
        let mut out: Vec<i32> = Vec::new();
        let mut i: usize = n;
        while i > 0
            invariant
                0 <= i <= n,
                n == self.data@.len(),
                out@ == self.data@.subrange(i as int, n as int).reverse(),
            decreases i,
        {
            i = i - 1;
            out.push(self.data[i]);
            assert(out@ =~= self.data@.subrange(i as int, n as int).reverse());
        }
        assert(self.data@.subrange(0, n as int) =~= self.data@);
        self.data = out;
    }

    /// Number of elements.
    pub fn depth(&self) -> (r: usize)
        ensures
            r == self@.items.len(),
    {
        self.data.len()
    }

    /// ( a b -- a+b ); `false` with fewer than two elements.
    pub fn add(&mut self) -> (r: bool)
        requires
            old(self)@.items.len() >= 2 ==> i32::MIN <= old(self)@.lhs() + old(self)@.rhs() <= i32::MAX,
        ensures
            r == (old(self)@.items.len() >= 2),
            r ==> final(self)@ == old(self)@.with_result((old(self)@.lhs() + old(self)@.rhs()) as i32),
            !r ==> final(self)@ == old(self)@,
    {
        if self.data.len() < 2 {
            return false;
        }
        let b = self.take();
        let a = self.take();
        self.push(a + b);
        true
    }

    /// ( a b -- a-b ); `false` with fewer than two elements.
    pub fn sub(&mut self) -> (r: bool)
        requires
            old(self)@.items.len() >= 2 ==> i32::MIN <= old(self)@.lhs() - old(self)@.rhs() <= i32::MAX,
        ensures
            r == (old(self)@.items.len() >= 2),
            r ==> final(self)@ == old(self)@.with_result((old(self)@.lhs() - old(self)@.rhs()) as i32),
            !r ==> final(self)@ == old(self)@,
    {
        if self.data.len() < 2 {
            return false;
        }
        let b = self.take();
        let a = self.take();
        self.push(a - b);
        true
    }

    /// ( a b -- a*b ); `false` with fewer than two elements.
    pub fn mul(&mut self) -> (r: bool)
        requires
            old(self)@.items.len() >= 2 ==> i32::MIN <= old(self)@.lhs() * old(self)@.rhs() <= i32::MAX,
        ensures
            r == (old(self)@.items.len() >= 2),
            r ==> final(self)@ == old(self)@.with_result((old(self)@.lhs() * old(self)@.rhs()) as i32),
            !r ==> final(self)@ == old(self)@,
    {
        if self.data.len() < 2 {
            return false;
        }
        let b = self.take();
        let a = self.take();
        self.push(a * b);
        true
    }

    /// ( a b -- a/b ), rounding toward zero. With fewer than two elements,
    /// `false`; with a zero divisor, `false` after the divisor is popped and
    /// pushed back on the end.
    pub fn div(&mut self) -> (r: bool)
        requires
            old(self)@.items.len() >= 2 ==> !(old(self)@.lhs() == i32::MIN && old(self)@.rhs() == -1),
        ensures
            r == (old(self)@.items.len() >= 2 && old(self)@.rhs() != 0),
            old(self)@.items.len() < 2 ==> final(self)@ == old(self)@,
            old(self)@.items.len() >= 2 && old(self)@.rhs() == 0 ==> final(self)@ == old(self)@.popped().pushed(0),
            r ==> final(self)@ == old(self)@.with_result(
                truncated_div(old(self)@.lhs() as int, old(self)@.rhs() as int) as i32,
            ),
    {
        if self.data.len() < 2 {
            return false;
        }
        let b = self.take();
        if b == 0 {
            self.push(b);
            return false;
        }
        let a = self.take();
        let magnitude: i64 = (if a < 0 { -(a as i64) } else { a as i64 }) / (if b < 0 { -(b as i64) } else { b as i64 });
        let quotient: i64 = if (a < 0) != (b < 0) { -magnitude } else { magnitude };
        assert(quotient == truncated_div(a as int, b as int));
        assert(i32::MIN <= quotient <= i32::MAX) by (nonlinear_arith)
            requires
                quotient == truncated_div(a as int, b as int),
                b != 0,
                !(a == i32::MIN && b == -1),
                i32::MIN <= a <= i32::MAX,
                i32::MIN <= b <= i32::MAX,
        {}
        self.push(quotient as i32);
        true
    }

    /// ( a b -- b a b )
    pub fn tuck(&mut self) -> (r: bool)
        ensures
            r == (old(self)@.items.len() >= 2),
            r ==> final(self)@ == old(self)@.with_result(old(self)@.rhs()).pushed(old(self)@.lhs()).pushed(
                old(self)@.rhs(),
            ),
            !r ==> final(self)@ == old(self)@,
    {
        if self.data.len() < 2 {
            return false;
        }
        let b = self.take();
        let a = self.take();
        self.push(b);
        self.push(a);
        self.push(b);
        true
    }

    /// Pushes a copy of the element `n` places below the newest; `false` when there is none.
    pub fn pick(&mut self, n: usize) -> (r: bool)
        ensures
            r == (n < old(self)@.items.len()),
            r ==> final(self)@ == old(self)@.pushed(old(self)@.items[old(self)@.items.len() - 1 - n]),
            !r ==> final(self)@ == old(self)@,
    {
        if n >= self.data.len() {
            return false;
        }
        let idx = self.data.len() - 1 - n;
        let val = self.data[idx];
        self.push(val);
        true
    }

    /// Moves the element `n` places below the newest to the top; `false` when there is none.
    pub fn roll(&mut self, n: usize) -> (r: bool)
        ensures
            r == (n < old(self)@.items.len()),
            r ==> {
                let s = old(self)@.items;
                let idx = s.len() - 1 - n;
                final(self)@ == (ModalView { items: s.remove(idx).push(s[idx]), mode: old(self)@.mode })
            },
            !r ==> final(self)@ == old(self)@,
    {
        if n >= self.data.len() {
            return false;
        }
        let idx = self.data.len() - 1 - n;
        let val = self.data.remove(idx);
        self.push(val);
        true
    }

    /// ( a b c d -- a b c d a b )
    pub fn over2(&mut self) -> (r: bool)
        ensures
            r == (old(self)@.items.len() >= 4),
            r ==> {
                let s = old(self)@.items;
                let n = s.len() as int;
                final(self)@ == old(self)@.pushed(s[n - 4]).pushed(s[n - 3])
            },
            !r ==> final(self)@ == old(self)@,
    {
        let len = self.data.len();
        if len < 4 {
            return false;
        }
        let a = self.data[len - 4];
        let b = self.data[len - 3];
        self.push(a);
        self.push(b);
        true
    }

    /// Pops and discards twice; `false` with fewer than two elements.
    pub fn drop2(&mut self) -> (r: bool)
        ensures
            r == (old(self)@.items.len() >= 2),
            r ==> final(self)@ == old(self)@.popped().popped(),
            !r ==> final(self)@ == old(self)@,
    {
        if self.data.len() < 2 {
            return false;
        }
        self.pop();
        self.pop();
        true
    }

    /// ( a b c d -- c d a b )
    pub fn swap2(&mut self) -> (r: bool)
        ensures
            r == (old(self)@.items.len() >= 4),
            r ==> final(self)@.mode == old(self)@.mode && final(self)@.items == ({
                let s = old(self)@.items;
                let n = s.len() as int;
                s.update(n - 4, s[n - 2]).update(n - 3, s[n - 1]).update(n - 2, s[n - 4]).update(
                    n - 1,
                    s[n - 3],
                )
            }),
            !r ==> final(self)@ == old(self)@,
    {
        let len = self.data.len();
        if len < 4 {
            return false;
        }
        let a = self.data[len - 4];
        let b = self.data[len - 3];
        let c = self.data[len - 2];
        let d = self.data[len - 1];
        self.data.set(len - 4, c);
        self.data.set(len - 3, d);
        self.data.set(len - 2, a);
        self.data.set(len - 1, b);
        true
    }

    /// ( value address -- ): stores `value` at `address` in `memory`.
    pub fn store(&mut self, memory: &mut Memory) -> (r: bool)
        ensures
            r == (old(self)@.items.len() >= 2),
            r ==> final(self)@ == old(self)@.popped().popped()
                && final(memory)@ == old(memory)@.insert(old(self)@.rhs(), old(self)@.lhs()),
            !r ==> final(self)@ == old(self)@ && final(memory)@ == old(memory)@,
    {
        if self.data.len() < 2 {
            return false;
        }
        let address = self.take();
        let value = self.take();
        store(memory, address, value);
        true
    }

    /// ( address -- value ): `false` on an empty stack or an address with nothing stored.
    pub fn load(&mut self, memory: &Memory) -> (r: bool)
        ensures
            old(self)@.items.len() == 0 ==> !r && final(self)@ == old(self)@,
            old(self)@.items.len() > 0 ==> {
                let address = old(self)@.top();
                &&& r == memory@.contains_key(address)
                &&& r ==> final(self)@ == old(self)@.popped().pushed(memory@[address])
                &&& !r ==> final(self)@ == old(self)@.popped()
            },
    {
        if self.data.len() == 0 {
            return false;
        }
        let address = self.take();
        match load(memory, address) {
            Some(value) => {
                self.push(value);
                true
            },
            None => false,
        }
    }

    /// ( a b -- a&b )
    pub fn and(&mut self) -> (r: bool)
        ensures
            r == (old(self)@.items.len() >= 2),
            r ==> final(self)@ == old(self)@.with_result(old(self)@.lhs() & old(self)@.rhs()),
            !r ==> final(self)@ == old(self)@,
    {
        if self.data.len() < 2 {
            return false;
        }
        let b = self.take();
        let a = self.take();
        self.push(a & b);
        true
    }

    /// ( a b -- a|b )
    pub fn or(&mut self) -> (r: bool)
        ensures
            r == (old(self)@.items.len() >= 2),
            r ==> final(self)@ == old(self)@.with_result(old(self)@.lhs() | old(self)@.rhs()),
            !r ==> final(self)@ == old(self)@,
    {
        if self.data.len() < 2 {
            return false;
        }
        let b = self.take();
        let a = self.take();
        self.push(a | b);
        true
    }

    /// ( a b -- a^b )
    pub fn xor(&mut self) -> (r: bool)
        ensures
            r == (old(self)@.items.len() >= 2),
            r ==> final(self)@ == old(self)@.with_result(old(self)@.lhs() ^ old(self)@.rhs()),
            !r ==> final(self)@ == old(self)@,
    {
        if self.data.len() < 2 {
            return false;
        }
        let b = self.take();
        let a = self.take();
        self.push(a ^ b);
        true
    }

    /// ( a b -- a<<b ); the shift amount must lie in 0..32.
    pub fn shl(&mut self) -> (r: bool)
        requires
            old(self)@.items.len() >= 2 ==> 0 <= old(self)@.rhs() < 32,
        ensures
            r == (old(self)@.items.len() >= 2),
            r ==> final(self)@ == old(self)@.with_result(old(self)@.lhs() << old(self)@.rhs()),
            !r ==> final(self)@ == old(self)@,
    {
        if self.data.len() < 2 {
            return false;
        }
        let b = self.take();
        let a = self.take();
        self.push(a << b);
        true
    }

    /// ( a b -- a>>b ), sign-extending; the shift amount must lie in 0..32.
    pub fn shr(&mut self) -> (r: bool)
        requires
            old(self)@.items.len() >= 2 ==> 0 <= old(self)@.rhs() < 32,
        ensures
            r == (old(self)@.items.len() >= 2),
            r ==> final(self)@ == old(self)@.with_result(old(self)@.lhs() >> old(self)@.rhs()),
            !r ==> final(self)@ == old(self)@,
    {
        if self.data.len() < 2 {
            return false;
        }
        let b = self.take();
        let a = self.take();
        self.push(a >> b);
        true
    }
}

/// Moves the element a pop of `data_stack` takes onto `return_stack`.
pub fn push_r(data_stack: &mut IntStack, return_stack: &mut IntStack) -> (r: bool)
    ensures
        r == (old(data_stack)@.items.len() >= 1),
        r ==> final(data_stack)@ == old(data_stack)@.popped()
            && final(return_stack)@ == old(return_stack)@.pushed(old(data_stack)@.top()),
        !r ==> final(data_stack)@ == old(data_stack)@ && final(return_stack)@ == old(return_stack)@,
{
    if data_stack.depth() < 1 {
        return false;
    }
    let val = data_stack.take();
    return_stack.push(val);
    true
}

/// Moves the element a pop of `return_stack` takes onto `data_stack`.
pub fn pop_r(data_stack: &mut IntStack, return_stack: &mut IntStack) -> (r: bool)
    ensures
        r == (old(return_stack)@.items.len() >= 1),
        r ==> final(return_stack)@ == old(return_stack)@.popped()
            && final(data_stack)@ == old(data_stack)@.pushed(old(return_stack)@.top()),
        !r ==> final(data_stack)@ == old(data_stack)@ && final(return_stack)@ == old(return_stack)@,
{
    if return_stack.depth() < 1 {
        return false;
    }
    let val = return_stack.take();
    data_stack.push(val);
    true
}

/// Copies the element a pop of `return_stack` would take onto `data_stack`.
pub fn peek_r(data_stack: &mut IntStack, return_stack: &IntStack) -> (r: bool)
    ensures
        r == (return_stack@.items.len() >= 1),
        r ==> final(data_stack)@ == old(data_stack)@.pushed(return_stack@.top()),
        !r ==> final(data_stack)@ == old(data_stack)@,
{
    if return_stack.depth() < 1 {
        return false;
    }
    match return_stack.peek() {
        Some(val) => {
            data_stack.push(*val);
            true
        },
        None => false,
    }
}

} // verus!
