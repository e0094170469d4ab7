//! The stacks of the interactive stack calculator: typed stacks with
//! Forth-style operations, a LIFO/FIFO mode, and a word-addressed memory.
use vstd::prelude::*;
use crate::index::str_eq;

pub mod int_stack;
pub mod memory;
pub mod selector;
pub mod str_stack;

verus! {

/// What `str::to_lowercase` makes of a string.
pub uninterp spec fn lower_of(s: Seq<char>) -> Seq<char>;

/// Relies on `str::to_lowercase`: the result depends on the characters alone.
#[verifier::external_body]
pub(crate) fn lowercase(s: &str) -> (r: String)
    ensures
        r@ == lower_of(s@),
{
    s.to_lowercase()
}

/// The contents and mode of a calculator stack.
pub struct ModalView<A> {
    /// Oldest first.
    pub items: Seq<A>,
    pub mode: StackMode,
}

impl<A> ModalView<A> {
    /// The element a pop takes: the newest under LIFO, the oldest under FIFO.
    pub open spec fn top(self) -> A {
        match self.mode {
            StackMode::LIFO => self.items.last(),
            StackMode::FIFO => self.items[0],
        }
    }

    /// The stack after a pop.
    pub open spec fn popped(self) -> ModalView<A> {
        ModalView {
            items: match self.mode {
                StackMode::LIFO => self.items.drop_last(),
                StackMode::FIFO => self.items.drop_first(),
            },
            mode: self.mode,
        }
    }

    /// The right operand of a binary operation: the first element popped.
    pub open spec fn rhs(self) -> A {
        self.top()
    }

    /// The left operand of a binary operation: the second element popped.
    pub open spec fn lhs(self) -> A {
        self.popped().top()
    }

    /// The stack after both operands are popped and `c` is pushed.
    pub open spec fn with_result(self, c: A) -> ModalView<A> {
        ModalView { items: self.popped().popped().items.push(c), mode: self.mode }
    }

    /// The stack after `v` is pushed.
    pub open spec fn pushed(self, v: A) -> ModalView<A> {
        ModalView { items: self.items.push(v), mode: self.mode }
    }
}

/// Whether a stack gives back its newest or its oldest element first.
#[derive(Debug, Clone, Copy, PartialEq, Eq, Structural)]
pub enum StackMode {
    LIFO,
    FIFO,
}

/// The mode a lower-case name denotes.
pub open spec fn mode_named(t: Seq<char>) -> Option<StackMode> {
    if t == "lifo"@ {
        Some(StackMode::LIFO)
    } else if t == "fifo"@ {
        Some(StackMode::FIFO)
    } else {
        None
    }
}

impl StackMode {
    /// The mode named `s`, in any letter case.
    pub fn from_str(s: &str) -> (r: Option<StackMode>)
        ensures
            r == mode_named(lower_of(s@)),
    {
        let lower = lowercase(s);
        StackMode::from_lowercase(lower.as_str())
    }

    /// The mode named `t`, which is already lower case.
    pub fn from_lowercase(t: &str) -> (r: Option<StackMode>)
        ensures
            r == mode_named(t@),
    {
        if str_eq(t, "lifo") {
            Some(StackMode::LIFO)
        } else if str_eq(t, "fifo") {
            Some(StackMode::FIFO)
        } else {
            None
        }
    }

    /// The lower-case name of the mode.
    pub fn to_str(&self) -> (r: &'static str)
        ensures
            r@ == (match *self {
                StackMode::LIFO => "lifo"@,
                StackMode::FIFO => "fifo"@,
            }),
    {
        match self {
            StackMode::LIFO => "lifo",
            StackMode::FIFO => "fifo",
        }
    }
}

} // verus!
