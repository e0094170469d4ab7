//! The string stack of the calculator.
use vstd::prelude::*;
use vstd::string::StringExecFns;
use vstd::view::View as _;
use crate::calc::{ModalView, StackMode};

verus! {

/// `s` written `n` times in a row.
pub open spec fn repeated(s: Seq<char>, n: nat) -> Seq<char>
    decreases n,
{
    if n == 0 {
        Seq::empty()
    } else {
        repeated(s, (n - 1) as nat) + s
    }
}

/// Whether `t` ends with a non-empty `d`.
pub open spec fn ends_with(t: Seq<char>, d: Seq<char>) -> bool {
    0 < d.len() <= t.len() && t.subrange(t.len() - d.len(), t.len() as int) == d
}

/// `t` with every trailing copy of `d` removed, one at a time.
pub open spec fn trimmed_end(t: Seq<char>, d: Seq<char>) -> Seq<char>
    decreases t.len(),
{
    if ends_with(t, d) {
        trimmed_end(t.subrange(0, t.len() - d.len()), d)
    } else {
        t
    }
}

/// `parts` joined with one space between neighbours.
pub open spec fn spaced(parts: Seq<Seq<char>>) -> Seq<char>
    decreases parts.len(),
{
    if parts.len() == 0 {
        Seq::empty()
    } else if parts.len() == 1 {
        parts[0]
    } else {
        spaced(parts.drop_last()) + " "@ + parts.last()
    }
}

/// What `str::split` yields for `s` and the pattern `d`.
pub uninterp spec fn split_of(s: Seq<char>, d: Seq<char>) -> Seq<Seq<char>>;

/// `s` written `n` times in a row.
fn repeat_text(s: &str, n: usize) -> (r: String)
    ensures
        r@ == repeated(s@, n as nat),
{
    let mut out = String::new();
    let mut i: usize = 0;
    while i < n
        invariant
            0 <= i <= n,
            out@ == repeated(s@, i as nat),
        decreases n - i,
    {
        out = out.concat(s);
        i = i + 1;
    }
    out
}

/// Relies on `str::trim_end_matches`: every trailing match of `d` removed,
/// repeatedly; an empty `d` removes nothing.
#[verifier::external_body]
fn trim_end(s: &str, d: &str) -> (r: String)
    ensures
        r@ == trimmed_end(s@, d@),
{
    s.trim_end_matches(d).to_string()
}

/// Relies on `str::split`: the pieces of `s` between matches of `d`.
#[verifier::external_body]
fn split_text(s: &str, d: &str) -> (r: Vec<String>)
    ensures
        r@.map_values(|p: String| p@) == split_of(s@, d@),
{
    s.split(d).map(|p| p.to_string()).collect()
}

/// `parts` joined with one space between neighbours.
pub fn join_spaced(parts: &Vec<String>) -> (r: String)
    ensures
        r@ == spaced(parts@.map_values(|p: String| p@)),
{
    let ghost ps = parts@.map_values(|p: String| p@);
    if parts.len() == 0 {
        return String::new();
    }
    let mut out = parts[0].clone();
    let mut i: usize = 1;
    while i < parts.len()
        invariant
            1 <= i <= parts@.len(),
            ps == parts@.map_values(|p: String| p@),
            out@ == spaced(ps.take(i as int)),
        decreases parts@.len() - i,
    {
        proof {
            let t = ps.take(i as int + 1);
            assert(t.drop_last() =~= ps.take(i as int));
        }
        out = out.concat(" ").concat(parts[i].as_str());
        i = i + 1;
    }
    proof {
        assert(ps.take(i as int) =~= ps);
        assert(ps.take(1) =~= seq![ps[0]]);
    }
    out
}

/// A stack of strings with a LIFO or FIFO mode; pushes always go on the end.
pub struct StringStack {
    data: Vec<String>,
    mode: StackMode,
}

impl View for StringStack {
    type V = ModalView<Seq<char>>;

    closed spec fn view(&self) -> ModalView<Seq<char>> {
        ModalView { items: self.data@.map_values(|s: String| s@), mode: self.mode }
    }
}

impl StringStack {
    /// An empty LIFO stack.
    pub fn new() -> (r: StringStack)
        ensures
            r@.items == Seq::<Seq<char>>::empty(),
            r@.mode == StackMode::LIFO,
    {
        let r = StringStack { data: Vec::new(), mode: StackMode::LIFO };
        assert(r@.items =~= Seq::<Seq<char>>::empty());
        r
    }

    pub fn push(&mut self, value: String)
        ensures
            final(self)@ == old(self)@.pushed(value@),
    {
        self.data.push(value);
        assert(self@.items =~= old(self)@.items.push(value@));
    }

    /// Takes the element the mode selects.
    pub fn pop(&mut self) -> (r: Option<String>)
        ensures
            old(self)@.items.len() == 0 ==> r is None && final(self)@ == old(self)@,
            old(self)@.items.len() > 0 ==> r is Some && r->Some_0@ == old(self)@.top()
                && final(self)@ == old(self)@.popped(),
    {
        if self.data.len() == 0 {
            return None;
        }
        match self.mode {
            StackMode::FIFO => {
                let v = self.data.remove(0);
                assert(self@.items =~= old(self)@.items.drop_first());
                Some(v)
            },
            StackMode::LIFO => {
                let v = self.data.pop();
                assert(self@.items =~= old(self)@.items.drop_last());
                v
            },
        }
    }

    /// Pops a non-empty stack.
    fn take(&mut self) -> (r: String)
        requires
            old(self)@.items.len() > 0,
        ensures
            r@ == old(self)@.top(),
            final(self)@ == old(self)@.popped(),
    {
        match self.pop() {
            Some(v) => v,
            None => String::new(),
        }
    }

    /// The element a pop would take.
    pub fn peek(&self) -> (r: Option<&String>)
        ensures
            self@.items.len() == 0 ==> r is None,
            self@.items.len() > 0 ==> r is Some && r->Some_0@ == self@.top(),
    {
        if self.data.len() == 0 {
            return None;
        }
        match self.mode {
            StackMode::FIFO => Some(&self.data[0]),
            StackMode::LIFO => Some(&self.data[self.data.len() - 1]),
        }
    }

    /// Pushes a copy of the newest element; `false` on an empty stack.
    pub fn dup(&mut self) -> (r: bool)
        ensures
            r == (old(self)@.items.len() > 0),
            r ==> final(self)@ == old(self)@.pushed(old(self)@.items.last()),
            !r ==> final(self)@ == old(self)@,
    {
        if self.data.len() == 0 {
            return false;
        }
        let top = self.data[self.data.len() - 1].clone();
        self.push(top);
        true
    }

    /// Exchanges the two newest elements; `false` with fewer than two.
    pub fn swap(&mut self) -> (r: bool)
        ensures
            r == (old(self)@.items.len() >= 2),
            r ==> final(self)@.mode == old(self)@.mode && final(self)@.items == ({
                let s = old(self)@.items;
                let n = s.len() as int;
                s.update(n - 1, s[n - 2]).update(n - 2, s[n - 1])
            }),
            !r ==> final(self)@ == old(self)@,
    {
        let len = self.data.len();
        if len < 2 {
            return false;
        }
        let x = self.data[len - 1].clone();
        let y = self.data[len - 2].clone();
        self.data.set(len - 1, y);
        self.data.set(len - 2, x);
        proof {
            let s = old(self)@.items;
            let n = s.len() as int;
            assert(self@.items =~= s.update(n - 1, s[n - 2]).update(n - 2, s[n - 1]));
        }
        true
    }

    /// Pops and discards; `false` on an empty stack.
    pub fn drop(&mut self) -> (r: bool)
        ensures
            r == (old(self)@.items.len() > 0),
            r ==> final(self)@ == old(self)@.popped(),
            !r ==> final(self)@ == old(self)@,
    {
        self.pop().is_some()
    }

    pub fn set_mode(&mut self, mode: StackMode)
        ensures
            final(self)@ == (ModalView { items: old(self)@.items, mode }),
    {
        self.mode = mode;
    }

    /// Reverses the elements.
    pub fn flip(&mut self)
        ensures
            final(self)@ == (ModalView { items: old(self)@.items.reverse(), mode: old(self)@.mode }),
    {
        let n = self.data.len();
        let mut out: Vec<String> = Vec::new();
        let mut i: usize = n;
        while i > 0
            invariant
                0 <= i <= n,
                n == self.data@.len(),
                out@.map_values(|s: String| s@) == self@.items.subrange(i as int, n as int).reverse(),
            decreases i,
        {
            i = i - 1;
            let ghost prev = out@;
            let c = self.data[i].clone();
            out.push(c);
            proof {
                assert(out@ == prev.push(c));
                assert(out@.map_values(|s: String| s@) =~= prev.map_values(|s: String| s@).push(c@));
                assert(c@ == self@.items[i as int]);
                assert(self@.items.subrange(i as int, n as int).reverse() =~= self@.items.subrange(
                    i + 1,
                    n as int,
                ).reverse().push(self@.items[i as int]));
            }
        }
        assert(self@.items.subrange(0, n as int) =~= self@.items);
        self.data = out;
    }

    /// Number of elements.
    pub fn depth(&self) -> (r: usize)
        ensures
            r == self@.items.len(),
    {
        self.data.len()
    }

    /// ( a b -- ab ): concatenation; `false` with fewer than two elements.
    pub fn add(&mut self) -> (r: bool)
        ensures
            r == (old(self)@.items.len() >= 2),
            r ==> final(self)@ == old(self)@.with_result(old(self)@.lhs() + old(self)@.rhs()),
            !r ==> final(self)@ == old(self)@,
    {
        if self.data.len() < 2 {
            return false;
        }
        let b = self.take();
        let a = self.take();
        self.push(a.concat(b.as_str()));
        true
    }

    /// Removes every trailing copy of `trim` from the popped element and pushes
    /// the rest; `false` on an empty stack.
    pub fn sub(&mut self, trim: &str) -> (r: bool)
        ensures
            r == (old(self)@.items.len() > 0),
            r ==> final(self)@ == old(self)@.popped().pushed(trimmed_end(old(self)@.top(), trim@)),
            !r ==> final(self)@ == old(self)@,
    {
        if self.data.len() == 0 {
            return false;
        }
        let top = self.take();
        self.push(trim_end(top.as_str(), trim));
        true
    }

    /// Replaces the popped element with `n` copies of it in a row; `false` on
    /// an empty stack.
    pub fn mul(&mut self, n: usize) -> (r: bool)
        ensures
            r == (old(self)@.items.len() > 0),
            r ==> final(self)@ == old(self)@.popped().pushed(repeated(old(self)@.top(), n as nat)),
            !r ==> final(self)@ == old(self)@,
    {
        if self.data.len() == 0 {
            return false;
        }
        let text = self.take();
        self.push(repeat_text(text.as_str(), n));
        true
    }

    /// Splits the popped element at each `delim` and pushes the pieces joined by
    /// single spaces; `false` on an empty stack.
    pub fn div(&mut self, delim: &str) -> (r: bool)
        ensures
            r == (old(self)@.items.len() > 0),
            r ==> final(self)@ == old(self)@.popped().pushed(spaced(split_of(old(self)@.top(), delim@))),
            !r ==> final(self)@ == old(self)@,
    {
        if self.data.len() == 0 {
            return false;
        }
        let text = self.take();
        let parts = split_text(text.as_str(), delim);
        self.push(join_spaced(&parts));
        true
    }
}

} // verus!
