//! The abstract state of a perspective stack and the transitions its operations make.
use vstd::prelude::*;
use crate::error::StackError;

verus! {

/// How access parameters are interpreted; storage is the same for all four.
#[derive(Debug, Clone, Copy, PartialEq, Eq, Structural)]
pub enum Perspective {
    /// Last in, first out: offset 0 is the newest element.
    LIFO,
    /// First in, first out: offset 0 is the oldest element.
    FIFO,
    /// Direct positions counted from the oldest live element.
    Indexed,
    /// Access by string label.
    Hash,
}

/// Element type tag, for runtime type checks on mixed stacks.
#[derive(Debug, Clone, Copy, PartialEq, Eq, Structural)]
pub enum ElementType {
    Int64,
    Uint64,
    Float64,
    String,
    Bytes,
    Bool,
}

/// The parameter of a positional or keyed pop or peek.
pub enum PopParam {
    /// An offset (LIFO, FIFO) or a position (Indexed).
    Index(usize),
    /// A label (Hash).
    Key(String),
}

/// The mathematical state of a stack.
pub struct StackView<T> {
    /// Physical slots, oldest first; those before `head` are dead.
    pub slots: Seq<T>,
    /// One optional label per slot.
    pub labels: Seq<Option<Seq<char>>>,
    /// Label to slot, authoritative while the perspective is Hash.
    pub index: Map<Seq<char>, usize>,
    /// First live slot.
    pub head: int,
    pub perspective: Perspective,
    pub frozen: bool,
    pub closed: bool,
    /// 0 means unbounded.
    pub capacity: int,
}

/// The character of one decimal digit.
pub open spec fn digit_char(d: nat) -> char {
    if d == 0 { '0' }
    else if d == 1 { '1' }
    else if d == 2 { '2' }
    else if d == 3 { '3' }
    else if d == 4 { '4' }
    else if d == 5 { '5' }
    else if d == 6 { '6' }
    else if d == 7 { '7' }
    else if d == 8 { '8' }
    else { '9' }
}

/// The decimal digits of `n`, most significant first, without padding.
pub open spec fn decimal(n: nat) -> Seq<char>
    decreases n,
{
    if n < 10 {
        seq![digit_char(n)]
    } else {
        decimal(n / 10).push(digit_char(n % 10))
    }
}

/// The index built by visiting the slots oldest first: a later slot wins for a repeated label.
pub open spec fn index_of_labels(labels: Seq<Option<Seq<char>>>) -> Map<Seq<char>, usize>
    decreases labels.len(),
{
    if labels.len() == 0 {
        Map::empty()
    } else {
        let prev = index_of_labels(labels.drop_last());
        match labels.last() {
            Some(k) => prev.insert(k, (labels.len() - 1) as usize),
            None => prev,
        }
    }
}

/// Every unlabelled slot receives its own position, in decimal, as a label.
pub open spec fn labelled(labels: Seq<Option<Seq<char>>>) -> Seq<Option<Seq<char>>> {
    Seq::new(
        labels.len(),
        |i: int|
            match labels[i] {
                Some(k) => Some(k),
                None => Some(decimal(i as nat)),
            },
    )
}

/// The label a parameter carries, if it is a key.
pub open spec fn param_key(param: Option<PopParam>) -> Seq<char> {
    match param {
        Some(PopParam::Key(k)) => k@,
        _ => Seq::empty(),
    }
}

/// `r` is what a plain push returns on state `s`.
pub open spec fn push_returns<T>(s: StackView<T>, r: Result<(), StackError>) -> bool {
    match s.push_error() {
        Some(e) => r == Err::<(), StackError>(e),
        None => r == Ok::<(), StackError>(()),
    }
}

/// `r` is what a keyed push returns on state `s`.
pub open spec fn push_keyed_returns<T>(s: StackView<T>, r: Result<(), StackError>) -> bool {
    match s.push_keyed_error() {
        Some(e) => r == Err::<(), StackError>(e),
        None => r == Ok::<(), StackError>(()),
    }
}

/// `r` is what a pop with `param` returns on state `s`.
pub open spec fn pop_returns<T: Clone>(s: StackView<T>, param: Option<PopParam>, r: Result<T, StackError>) -> bool {
    match s.pop_error(param) {
        Some(e) => r == Err::<T, StackError>(e),
        None => r is Ok && cloned(s.slots[s.pop_target(param)->Ok_0], r->Ok_0),
    }
}

/// `r` is what a peek with `param` returns on state `s`.
pub open spec fn peek_returns<T: Clone>(s: StackView<T>, param: Option<PopParam>, r: Result<T, StackError>) -> bool {
    match s.peek_error(param) {
        Some(e) => r == Err::<T, StackError>(e),
        None => r is Ok && cloned(s.slots[s.peek_target(param)->Ok_0], r->Ok_0),
    }
}

impl<T> StackView<T> {
    /// Number of live elements.
    pub open spec fn len(self) -> int {
        self.slots.len() - self.head
    }

    pub open spec fn is_empty(self) -> bool {
        self.len() == 0
    }

    pub open spec fn is_full(self) -> bool {
        self.capacity > 0 && self.len() >= self.capacity
    }

    /// The live elements, oldest first.
    pub open spec fn live(self) -> Seq<T> {
        self.slots.subrange(self.head, self.slots.len() as int)
    }

    /// Shape of a consistent state.
    pub open spec fn wf(self) -> bool {
        &&& self.labels.len() == self.slots.len()
        &&& 0 <= self.head <= self.slots.len()
        &&& self.slots.len() <= usize::MAX
        &&& 0 <= self.capacity <= usize::MAX
        &&& self.perspective == Perspective::Hash ==> forall|k: Seq<char>|
            #[trigger] self.index.contains_key(k) ==> {
                &&& self.index[k] < self.slots.len()
                &&& self.labels[self.index[k] as int] == Some(k)
            }
    }

    /// An empty stack.
    pub open spec fn empty(perspective: Perspective, capacity: int) -> StackView<T> {
        StackView {
            slots: Seq::empty(),
            labels: Seq::empty(),
            index: Map::empty(),
            head: 0,
            perspective,
            frozen: false,
            closed: false,
            capacity,
        }
    }

    /// The same contents with the dead prefix dropped, once it has grown large.
    pub open spec fn compacted(self) -> StackView<T> {
        if self.head > 0 && self.head > self.slots.len() / 2 && self.head > 100 {
            let labels = self.labels.subrange(self.head, self.slots.len() as int);
            StackView {
                slots: self.live(),
                labels,
                index: if self.perspective == Perspective::Hash {
                    index_of_labels(labels)
                } else {
                    self.index
                },
                head: 0,
                ..self
            }
        } else {
            self
        }
    }

    /// A value appended with an optional label.
    pub open spec fn appended(self, v: T, label: Option<Seq<char>>) -> StackView<T> {
        StackView { slots: self.slots.push(v), labels: self.labels.push(label), ..self }
    }

    /// Outcome of a plain push, when it fails.
    pub open spec fn push_error(self) -> Option<StackError> {
        if self.frozen {
            Some(StackError::Frozen)
        } else if self.is_full() {
            Some(StackError::Full)
        } else if self.perspective == Perspective::Hash {
            Some(StackError::KeyRequired)
        } else {
            None
        }
    }

    /// Outcome of a keyed push, when it fails.
    pub open spec fn push_keyed_error(self) -> Option<StackError> {
        if self.frozen {
            Some(StackError::Frozen)
        } else if self.is_full() {
            Some(StackError::Full)
        } else {
            None
        }
    }

    /// State after a successful keyed push: under Hash a key indexed to a live
    /// slot is overwritten in place; otherwise the value is appended (and indexed).
    pub open spec fn after_push_keyed(self, k: Seq<char>, v: T) -> StackView<T> {
        if self.perspective == Perspective::Hash && self.index.contains_key(k) && self.index[k] >= self.head {
            StackView { slots: self.slots.update(self.index[k] as int, v), ..self }
        } else if self.perspective == Perspective::Hash {
            StackView {
                index: self.index.insert(k, self.slots.len() as usize),
                ..self.appended(v, Some(k))
            }
        } else {
            self.appended(v, Some(k))
        }
    }

    /// The slot a pop removes, or why none is, for a non-empty stack.
    pub open spec fn pop_target(self, param: Option<PopParam>) -> Result<int, StackError> {
        let n = self.slots.len() as int;
        match self.perspective {
            Perspective::LIFO => match param {
                Some(PopParam::Index(off)) => if off + 1 > n || n - 1 - off < self.head {
                    Err(StackError::IndexOutOfBounds)
                } else {
                    Ok(n - 1 - off)
                },
                None => Ok(n - 1),
                Some(PopParam::Key(_)) => Err(StackError::KeyNotFound),
            },
            Perspective::FIFO => match param {
                Some(PopParam::Index(off)) => if self.head + off >= n {
                    Err(StackError::IndexOutOfBounds)
                } else {
                    Ok(self.head + off)
                },
                None => Ok(self.head),
                Some(PopParam::Key(_)) => Err(StackError::KeyNotFound),
            },
            Perspective::Indexed => match param {
                Some(PopParam::Index(i)) => if self.head + i >= n {
                    Err(StackError::IndexOutOfBounds)
                } else {
                    Ok(self.head + i)
                },
                None => Ok(n - 1),
                Some(PopParam::Key(_)) => Err(StackError::KeyNotFound),
            },
            Perspective::Hash => match param {
                Some(PopParam::Key(k)) => if !self.index.contains_key(k@) {
                    Err(StackError::KeyNotFound)
                } else if self.index[k@] < self.head {
                    Err(StackError::IndexOutOfBounds)
                } else {
                    Ok(self.index[k@] as int)
                },
                _ => Err(StackError::KeyRequired),
            },
        }
    }

    /// Outcome of a pop, when it fails.
    pub open spec fn pop_error(self, param: Option<PopParam>) -> Option<StackError> {
        if self.frozen {
            Some(StackError::Frozen)
        } else if self.is_empty() {
            Some(StackError::Empty)
        } else {
            match self.pop_target(param) {
                Err(e) => Some(e),
                Ok(_) => None,
            }
        }
    }

    /// State after slot `t` is popped: FIFO advances the head, Hash leaves a
    /// tombstone, the others remove the slot.
    pub open spec fn after_pop(self, t: int, key: Seq<char>) -> StackView<T> {
        if self.perspective == Perspective::FIFO && t == self.head {
            StackView { head: self.head + 1, ..self }.compacted()
        } else if self.perspective == Perspective::Hash {
            StackView { labels: self.labels.update(t, None), index: self.index.remove(key), ..self }
        } else {
            StackView { slots: self.slots.remove(t), labels: self.labels.remove(t), ..self }
        }
    }

    /// The slot a peek reads, or why none is, for a non-empty stack.
    pub open spec fn peek_target(self, param: Option<PopParam>) -> Result<int, StackError> {
        let n = self.slots.len() as int;
        let t: Result<int, StackError> = match self.perspective {
            Perspective::LIFO => match param {
                Some(PopParam::Index(off)) => if off + 1 > n {
                    Err(StackError::IndexOutOfBounds)
                } else {
                    Ok(n - 1 - off)
                },
                None => Ok(n - 1),
                Some(PopParam::Key(_)) => Err(StackError::KeyNotFound),
            },
            Perspective::FIFO => match param {
                Some(PopParam::Index(off)) => Ok(self.head + off),
                None => Ok(self.head),
                Some(PopParam::Key(_)) => Err(StackError::KeyNotFound),
            },
            Perspective::Indexed => match param {
                Some(PopParam::Index(i)) => Ok(self.head + i),
                None => Err(StackError::IndexOutOfBounds),
                Some(PopParam::Key(_)) => Err(StackError::KeyNotFound),
            },
            Perspective::Hash => match param {
                Some(PopParam::Key(k)) => if !self.index.contains_key(k@) {
                    Err(StackError::KeyNotFound)
                } else if self.index[k@] < self.head {
                    Err(StackError::IndexOutOfBounds)
                } else {
                    Ok(self.index[k@] as int)
                },
                _ => Err(StackError::KeyRequired),
            },
        };
        match t {
            Ok(i) => if i < self.head || i >= n {
                Err(StackError::IndexOutOfBounds)
            } else {
                Ok(i)
            },
            Err(e) => Err(e),
        }
    }

    /// Outcome of a peek, when it fails.
    pub open spec fn peek_error(self, param: Option<PopParam>) -> Option<StackError> {
        if self.is_empty() {
            Some(StackError::Empty)
        } else {
            match self.peek_target(param) {
                Err(e) => Some(e),
                Ok(_) => None,
            }
        }
    }

    /// State after switching to perspective `p`: entering Hash labels every
    /// unlabelled slot and rebuilds the index.
    pub open spec fn with_perspective(self, p: Perspective) -> StackView<T> {
        if p == Perspective::Hash && self.perspective != Perspective::Hash {
            StackView {
                perspective: p,
                labels: labelled(self.labels),
                index: index_of_labels(labelled(self.labels)),
                ..self
            }
        } else {
            StackView { perspective: p, ..self }
        }
    }

    /// State after an unlocked pop of a non-empty stack: FIFO advances the head,
    /// the others drop the last slot (and its index entry, if it points there).
    pub open spec fn after_pop_raw(self) -> StackView<T> {
        let n = self.slots.len() as int;
        if self.perspective == Perspective::FIFO {
            StackView { head: self.head + 1, ..self }
        } else {
            StackView {
                slots: self.slots.drop_last(),
                labels: self.labels.drop_last(),
                index: match self.labels[n - 1] {
                    Some(k) => if self.index.contains_key(k) && self.index[k] == n - 1 {
                        self.index.remove(k)
                    } else {
                        self.index
                    },
                    None => self.index,
                },
                ..self
            }
        }
    }

    /// The slot an unlocked pop reads, for a non-empty stack.
    pub open spec fn pop_raw_slot(self) -> int {
        if self.perspective == Perspective::FIFO {
            self.head
        } else {
            self.slots.len() - 1
        }
    }

    /// State after every element is dropped.
    pub open spec fn cleared(self) -> StackView<T> {
        StackView { slots: Seq::empty(), labels: Seq::empty(), index: Map::empty(), head: 0, ..self }
    }
}

} // verus!
