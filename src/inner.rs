//! The state behind a stack's lock, and every operation on it.
use vstd::prelude::*;
use crate::error::{Result, StackError};
use crate::index::{KeyIndex, str_eq};
use crate::model::{Perspective, PopParam, StackView, decimal, index_of_labels, labelled, param_key};

verus! {

/// The label of an optional string.
pub open spec fn label_of(k: Option<String>) -> Option<Seq<char>> {
    match k {
        Some(s) => Some(s@),
        None => None,
    }
}

/// Relies on the standard library's `Display` for `usize`: plain decimal digits.
#[verifier::external_body]
fn decimal_label(n: usize) -> (r: String)
    ensures
        r@ == decimal(n as nat),
{
    n.to_string()
}

/// The ordered store of a stack with its labels, index and flags.
pub struct StackInner<T> {
    elements: Vec<T>,
    keys: Vec<Option<String>>,
    hash_idx: KeyIndex,
    head: usize,
    perspective: Perspective,
    frozen: bool,
    closed: bool,
    capacity: usize,
}

impl<T> View for StackInner<T> {
    type V = StackView<T>;

    closed spec fn view(&self) -> StackView<T> {
        StackView {
            slots: self.elements@,
            labels: self.keys@.map_values(|k: Option<String>| label_of(k)),
            index: self.hash_idx@,
            head: self.head as int,
            perspective: self.perspective,
            frozen: self.frozen,
            closed: self.closed,
            capacity: self.capacity as int,
        }
    }
}

impl<T> StackInner<T> {
    /// Consistency of the fields.
    pub closed spec fn wf(&self) -> bool {
        &&& self@.wf()
        &&& self.keys@.len() == self.elements@.len()
        &&& self.hash_idx.wf()
    }

    /// A well-formed state has a well-formed view.
    pub proof fn lemma_view_wf(&self)
        requires
            self.wf(),
        ensures
            self@.wf(),
    {
    }
}

impl<T: Clone> StackInner<T> {
    /// An empty state with the given perspective and capacity (0: unbounded).
    pub fn new(perspective: Perspective, capacity: usize) -> (r: StackInner<T>)
        ensures
            r.wf(),
            r@ == StackView::<T>::empty(perspective, capacity as int),
    {
        let r = StackInner {
            elements: Vec::new(),
            keys: Vec::new(),
            hash_idx: KeyIndex::new(),
            head: 0,
            perspective,
            frozen: false,
            closed: false,
            capacity,
        };
        assert(r@.labels =~= Seq::<Option<Seq<char>>>::empty());
        r
    }

    /// Number of live elements.
    pub fn len(&self) -> (r: usize)
        requires
            self.wf(),
        ensures
            r == self@.len(),
    {
        self.elements.len() - self.head
    }

    pub fn is_empty(&self) -> (r: bool)
        requires
            self.wf(),
        ensures
            r == self@.is_empty(),
    {
        self.len() == 0
    }

    pub fn is_full(&self) -> (r: bool)
        requires
            self.wf(),
        ensures
            r == self@.is_full(),
    {
        self.capacity > 0 && self.len() >= self.capacity
    }

    pub fn perspective(&self) -> (r: Perspective)
        ensures
            r == self@.perspective,
    {
        self.perspective
    }

    pub fn is_frozen(&self) -> (r: bool)
        ensures
            r == self@.frozen,
    {
        self.frozen
    }

    pub fn is_closed(&self) -> (r: bool)
        ensures
            r == self@.closed,
    {
        self.closed
    }

    pub fn capacity(&self) -> (r: usize)
        ensures
            r == self@.capacity,
    {
        self.capacity
    }

    /// Rebuilds the index from the labels, oldest slot first.
    fn rebuild_index(&mut self)
        requires
            old(self).keys@.len() == old(self).elements@.len(),
            old(self).head <= old(self).elements@.len(),
        ensures
            final(self).wf(),
            final(self)@ == (StackView { index: index_of_labels(old(self)@.labels), ..old(self)@ }),
    {
        self.hash_idx.clear();
        let n = self.keys.len();
        let mut i: usize = 0;
        while i < n
            invariant
                n == self.keys@.len(),
                0 <= i <= n,
                self.hash_idx.wf(),
                self.keys@ == old(self).keys@,
                self.elements@ == old(self).elements@,
                self.head == old(self).head,
                self.perspective == old(self).perspective,
                self.frozen == old(self).frozen,
                self.closed == old(self).closed,
                self.capacity == old(self).capacity,
                self.keys@.len() == self.elements@.len(),
                self.hash_idx@ == index_of_labels(self@.labels.subrange(0, i as int)),
            decreases n - i,
        {
            proof {
                let ls = self@.labels.subrange(0, i as int + 1);
                assert(ls.drop_last() =~= self@.labels.subrange(0, i as int));
            }
            match &self.keys[i] {
                Some(k) => {
                    self.hash_idx.insert(k.as_str(), i);
                },
                None => {},
            }
            i = i + 1;
        }
        proof {
            assert(self.elements@.len() == self.elements.len());
            assert(self@.labels.subrange(0, n as int) =~= self@.labels);
            lemma_index_of_labels_points(self@.labels);
        }
    }

    /// Drops the dead prefix once it is long, keeping the live elements.
    pub fn compact(&mut self)
        requires
            old(self).wf(),
        ensures
            final(self).wf(),
            final(self)@ == old(self)@.compacted(),
    {
        if self.head > 0 && self.head > self.elements.len() / 2 && self.head > 100 {
            let live = self.elements.split_off(self.head);
            self.elements = live;
            let live_keys = self.keys.split_off(self.head);
            self.keys = live_keys;
            self.head = 0;
            proof {
                assert(self@.labels =~= old(self)@.labels.subrange(old(self).head as int, old(self)@.slots.len() as int));
            }
            if self.perspective == Perspective::Hash {
                self.rebuild_index();
            }
            proof {
                assert(self@ =~= old(self)@.compacted());
            }
        }
    }

    /// Appends `value` unlabelled, unless frozen, full or under Hash.
    pub fn push(&mut self, value: T) -> (r: Result<()>)
        requires
            old(self).wf(),
        ensures
            final(self).wf(),
            match old(self)@.push_error() {
                Some(e) => r == Err::<(), StackError>(e) && final(self)@ == old(self)@,
                None => r == Ok::<(), StackError>(()) && final(self)@ == old(self)@.appended(value, None),
            },
    {
        if self.frozen {
            return Err(StackError::Frozen);
        }
        if self.is_full() {
            return Err(StackError::Full);
        }
        if self.perspective == Perspective::Hash {
            return Err(StackError::KeyRequired);
        }
        self.elements.push(value);
        self.keys.push(None);
        proof {
            assert(self.elements@.len() == self.elements.len());
            assert(self@.labels =~= old(self)@.labels.push(None));
            assert(self@ =~= old(self)@.appended(value, None));
        }
        Ok(())
    }

    /// The slot the index maps `key` to, when that slot is live.
    fn live_slot_of(&self, key: &str) -> (r: Option<usize>)
        requires
            self.wf(),
            self@.perspective == Perspective::Hash,
        ensures
            r == (if self@.index.contains_key(key@) && self@.index[key@] >= self@.head {
                Some(self@.index[key@])
            } else {
                None::<usize>
            }),
            r matches Some(i) ==> i < self@.slots.len(),
    {
        match self.hash_idx.get(key) {
            Some(idx) => if idx >= self.head {
                Some(idx)
            } else {
                None
            },
            None => None,
        }
    }

    /// Appends `value` under `key`; under Hash a key indexed to a live slot is
    /// overwritten in place.
    pub fn push_keyed(&mut self, key: &str, value: T) -> (r: Result<()>)
        requires
            old(self).wf(),
        ensures
            final(self).wf(),
            match old(self)@.push_keyed_error() {
                Some(e) => r == Err::<(), StackError>(e) && final(self)@ == old(self)@,
                None => r == Ok::<(), StackError>(()) && final(self)@ == old(self)@.after_push_keyed(key@, value),
            },
    {
        if self.frozen {
            return Err(StackError::Frozen);
        }
        if self.is_full() {
            return Err(StackError::Full);
        }
        if self.perspective == Perspective::Hash {
            match self.live_slot_of(key) {
                Some(idx) => {
                    self.elements.set(idx, value);
                    proof {
                        assert(self@ =~= old(self)@.after_push_keyed(key@, value));
                    }
                    return Ok(());
                },
                None => {},
            }
        }
        let idx = self.elements.len();
        self.elements.push(value);
        self.keys.push(Some(key.to_owned()));
        if self.perspective == Perspective::Hash {
            self.hash_idx.insert(key, idx);
        }
        proof {
            assert(self.elements@.len() == self.elements.len());
            assert(self@.labels =~= old(self)@.labels.push(Some(key@)));
            assert(self@ =~= old(self)@.after_push_keyed(key@, value));
        }
        Ok(())
    }

    /// Removes slot `idx`, shifting the later slots down.
    fn remove_slot(&mut self, idx: usize) -> (r: T)
        requires
            old(self).wf(),
            old(self)@.perspective != Perspective::Hash,
            old(self)@.head <= idx < old(self)@.slots.len(),
        ensures
            final(self).wf(),
            r == old(self)@.slots[idx as int],
            final(self)@ == (StackView {
                slots: old(self)@.slots.remove(idx as int),
                labels: old(self)@.labels.remove(idx as int),
                ..old(self)@
            }),
    {
        let elem = self.elements.remove(idx);
        self.keys.remove(idx);
        proof {
            assert(self.elements@.len() == self.elements.len());
            assert(self@.labels =~= old(self)@.labels.remove(idx as int));
        }
        elem
    }

    /// Pops by the perspective's rule for `param` (see [`StackView::pop_target`]).
    pub fn pop_inner(&mut self, param: Option<PopParam>) -> (r: Result<T>)
        requires
            old(self).wf(),
        ensures
            final(self).wf(),
            match old(self)@.pop_error(param) {
                Some(e) => r == Err::<T, StackError>(e) && final(self)@ == old(self)@,
                None => {
                    let t = old(self)@.pop_target(param)->Ok_0;
                    &&& r is Ok
                    &&& cloned(old(self)@.slots[t], r->Ok_0)
                    &&& final(self)@ == old(self)@.after_pop(t, param_key(param))
                },
            },
    {
        if self.frozen {
            return Err(StackError::Frozen);
        }
        if self.is_empty() {
            return Err(StackError::Empty);
        }
        let n = self.elements.len();
        match self.perspective {
            Perspective::LIFO => {
                let idx = match &param {
                    Some(PopParam::Index(off)) => {
                        if *off >= n || n - 1 - *off < self.head {
                            return Err(StackError::IndexOutOfBounds);
                        }
                        n - 1 - *off
                    },
                    None => n - 1,
                    Some(PopParam::Key(_)) => {
                        return Err(StackError::KeyNotFound);
                    },
                };
                Ok(self.remove_slot(idx))
            },
            Perspective::FIFO => {
                let idx = match &param {
                    Some(PopParam::Index(off)) => {
                        if *off >= n - self.head {
                            return Err(StackError::IndexOutOfBounds);
                        }
                        self.head + *off
                    },
                    None => self.head,
                    Some(PopParam::Key(_)) => {
                        return Err(StackError::KeyNotFound);
                    },
                };
                if idx == self.head {
                    let elem = self.elements[idx].clone();
                    self.head = self.head + 1;
                    self.compact();
                    Ok(elem)
                } else {
                    Ok(self.remove_slot(idx))
                }
            },
            Perspective::Indexed => {
                let idx = match &param {
                    Some(PopParam::Index(i)) => {
                        if *i >= n - self.head {
                            return Err(StackError::IndexOutOfBounds);
                        }
                        self.head + *i
                    },
                    None => n - 1,
                    Some(PopParam::Key(_)) => {
                        return Err(StackError::KeyNotFound);
                    },
                };
                Ok(self.remove_slot(idx))
            },
            Perspective::Hash => {
                match &param {
                    Some(PopParam::Key(k)) => {
                        match self.hash_idx.get(k.as_str()) {
                            Some(idx) if idx < self.head => Err(StackError::IndexOutOfBounds),
                            Some(idx) => {
                                let elem = self.elements[idx].clone();
                                self.hash_idx.remove(k.as_str());
                                self.keys.set(idx, None);
                                proof {
                                    assert(self@.labels =~= old(self)@.labels.update(idx as int, None));
                                }
                                Ok(elem)
                            },
                            None => Err(StackError::KeyNotFound),
                        }
                    },
                    _ => Err(StackError::KeyRequired),
                }
            },
        }
    }

    /// Reads by the perspective's rule for `param` (see [`StackView::peek_target`]); ignores `frozen`.
    pub fn peek_inner(&self, param: Option<PopParam>) -> (r: Result<T>)
        requires
            self.wf(),
        ensures
            match self@.peek_error(param) {
                Some(e) => r == Err::<T, StackError>(e),
                None => r is Ok && cloned(self@.slots[self@.peek_target(param)->Ok_0], r->Ok_0),
            },
    {
        if self.is_empty() {
            return Err(StackError::Empty);
        }
        let n = self.elements.len();
        let idx = match self.perspective {
            Perspective::LIFO => match &param {
                Some(PopParam::Index(off)) => {
                    if *off >= n {
                        return Err(StackError::IndexOutOfBounds);
                    }
                    n - 1 - *off
                },
                None => n - 1,
                Some(PopParam::Key(_)) => {
                    return Err(StackError::KeyNotFound);
                },
            },
            Perspective::FIFO => match &param {
                Some(PopParam::Index(off)) => {
                    if *off >= n - self.head {
                        return Err(StackError::IndexOutOfBounds);
                    }
                    self.head + *off
                },
                None => self.head,
                Some(PopParam::Key(_)) => {
                    return Err(StackError::KeyNotFound);
                },
            },
            Perspective::Indexed => match &param {
                Some(PopParam::Index(i)) => {
                    if *i >= n - self.head {
                        return Err(StackError::IndexOutOfBounds);
                    }
                    self.head + *i
                },
                None => {
                    return Err(StackError::IndexOutOfBounds);
                },
                Some(PopParam::Key(_)) => {
                    return Err(StackError::KeyNotFound);
                },
            },
            Perspective::Hash => match &param {
                Some(PopParam::Key(k)) => match self.hash_idx.get(k.as_str()) {
                    Some(idx) => idx,
                    None => {
                        return Err(StackError::KeyNotFound);
                    },
                },
                _ => {
                    return Err(StackError::KeyRequired);
                },
            },
        };
        if idx < self.head || idx >= n {
            return Err(StackError::IndexOutOfBounds);
        }
        Ok(self.elements[idx].clone())
    }

    /// Switches perspective; entering Hash labels unlabelled slots and rebuilds the index.
    pub fn set_perspective(&mut self, p: Perspective)
        requires
            old(self).wf(),
        ensures
            final(self).wf(),
            final(self)@ == old(self)@.with_perspective(p),
    {
        let previous = self.perspective;
        self.perspective = p;
        if p == Perspective::Hash && previous != Perspective::Hash {
            let n = self.keys.len();
            let mut i: usize = 0;
            while i < n
                invariant
                    n == self.keys@.len(),
                    n == old(self).keys@.len(),
                    n == old(self)@.labels.len(),
                    0 <= i <= n,
                    self.keys@.len() == self.elements@.len(),
                    self.elements@ == old(self).elements@,
                    self.head == old(self).head,
                    self.perspective == p,
                    self.frozen == old(self).frozen,
                    self.closed == old(self).closed,
                    self.capacity == old(self).capacity,
                    self.hash_idx == old(self).hash_idx,
                    forall|j: int| 0 <= j < i ==> self@.labels[j] == labelled(old(self)@.labels)[j],
                    forall|j: int| i <= j < n ==> self@.labels[j] == old(self)@.labels[j],
                decreases n - i,
            {
                let ghost before = self.keys@;
                let ghost before_labels = self@.labels;
                if self.keys[i].is_none() {
                    let label = decimal_label(i);
                    self.keys.set(i, Some(label));
                }
                proof {
                    assert(old(self)@.labels[i as int] == label_of(before[i as int]));
                    assert(self@.labels[i as int] == label_of(self.keys@[i as int]));
                    assert forall|j: int| 0 <= j < n && j != i implies self.keys@[j] == before[j] by {}
                    assert forall|j: int| 0 <= j < i + 1 implies self@.labels[j] == labelled(old(self)@.labels)[j] by {
                        if j < i {
                            assert(self@.labels[j] == label_of(self.keys@[j]));
                            assert(before_labels[j] == label_of(before[j]));
                        }
                    }
                }
                i = i + 1;
            }
            proof {
                assert(self@.labels =~= labelled(old(self)@.labels));
            }
            self.rebuild_index();
        }
        proof {
            assert(self@ =~= old(self)@.with_perspective(p));
        }
    }

    /// Pops as if the perspective were `p`, then restores the current one.
    pub fn pop_as(&mut self, p: Perspective, param: Option<PopParam>) -> (r: Result<T>)
        requires
            old(self).wf(),
        ensures
            final(self).wf(),
            ({
                let s = old(self)@.with_perspective(p);
                match s.pop_error(param) {
                    Some(e) => r == Err::<T, StackError>(e)
                        && final(self)@ == s.with_perspective(old(self)@.perspective),
                    None => {
                        let t = s.pop_target(param)->Ok_0;
                        &&& r is Ok
                        &&& cloned(s.slots[t], r->Ok_0)
                        &&& final(self)@ == s.after_pop(t, param_key(param)).with_perspective(old(self)@.perspective)
                    },
                }
            }),
    {
        let current = self.perspective;
        self.set_perspective(p);
        let r = self.pop_inner(param);
        self.set_perspective(current);
        r
    }

    /// Peeks as if the perspective were `p`, then restores the current one.
    pub fn peek_as(&mut self, p: Perspective, param: Option<PopParam>) -> (r: Result<T>)
        requires
            old(self).wf(),
        ensures
            final(self).wf(),
            ({
                let s = old(self)@.with_perspective(p);
                &&& final(self)@ == s.with_perspective(old(self)@.perspective)
                &&& match s.peek_error(param) {
                    Some(e) => r == Err::<T, StackError>(e),
                    None => r is Ok && cloned(s.slots[s.peek_target(param)->Ok_0], r->Ok_0),
                }
            }),
    {
        let current = self.perspective;
        self.set_perspective(p);
        let r = self.peek_inner(param);
        self.set_perspective(current);
        r
    }

    /// Drops every element, label and index entry.
    pub fn clear(&mut self)
        requires
            old(self).wf(),
        ensures
            final(self).wf(),
            final(self)@ == old(self)@.cleared(),
    {
        self.elements.clear();
        self.keys.clear();
        self.hash_idx.clear();
        self.head = 0;
        proof {
            assert(self@.labels =~= Seq::<Option<Seq<char>>>::empty());
            assert(self@ =~= old(self)@.cleared());
        }
    }

    /// Compacts, then refuses every later push and pop.
    pub fn freeze(&mut self)
        requires
            old(self).wf(),
        ensures
            final(self).wf(),
            final(self)@ == (StackView { frozen: true, ..old(self)@.compacted() }),
    {
        self.compact();
        self.frozen = true;
    }

    /// Marks the stack closed; pushes are still accepted.
    pub fn close(&mut self)
        requires
            old(self).wf(),
        ensures
            final(self).wf(),
            final(self)@ == (StackView { closed: true, ..old(self)@ }),
    {
        self.closed = true;
    }

    /// Pops without the frozen check: FIFO takes the oldest, the others the newest.
    pub fn pop_raw(&mut self) -> (r: Result<T>)
        requires
            old(self).wf(),
        ensures
            final(self).wf(),
            old(self)@.is_empty() ==> r == Err::<T, StackError>(StackError::Empty) && final(self)@ == old(self)@,
            !old(self)@.is_empty() ==> {
                &&& r is Ok
                &&& cloned(old(self)@.slots[old(self)@.pop_raw_slot()], r->Ok_0)
                &&& final(self)@ == old(self)@.after_pop_raw()
            },
    {
        if self.is_empty() {
            return Err(StackError::Empty);
        }
        if self.perspective == Perspective::FIFO {
            let idx = self.head;
            self.head = self.head + 1;
            return Ok(self.elements[idx].clone());
        }
        let last = self.elements.len() - 1;
        let elem = self.elements.remove(last);
        let label = self.keys.remove(last);
        match &label {
            Some(k) => {
                if self.hash_idx.get(k.as_str()) == Some(last) {
                    self.hash_idx.remove(k.as_str());
                }
            },
            None => {},
        }
        proof {
            assert(self.elements@.len() == self.elements.len());
            assert(self@.labels =~= old(self)@.labels.drop_last());
            assert(self@.slots =~= old(self)@.slots.drop_last());
            assert(old(self)@.labels[last as int] == label_of(label));
            assert(self@ =~= old(self)@.after_pop_raw());
        }
        Ok(elem)
    }

    /// Appends unlabelled, unless frozen or full (any perspective).
    pub fn push_raw(&mut self, value: T) -> (r: Result<()>)
        requires
            old(self).wf(),
        ensures
            final(self).wf(),
            old(self)@.frozen ==> r == Err::<(), StackError>(StackError::Frozen) && final(self)@ == old(self)@,
            !old(self)@.frozen && old(self)@.is_full() ==> r == Err::<(), StackError>(StackError::Full)
                && final(self)@ == old(self)@,
            !old(self)@.frozen && !old(self)@.is_full() ==> r == Ok::<(), StackError>(())
                && final(self)@ == old(self)@.appended(value, None),
    {
        if self.frozen {
            return Err(StackError::Frozen);
        }
        if self.is_full() {
            return Err(StackError::Full);
        }
        self.elements.push(value);
        self.keys.push(None);
        proof {
            assert(self.elements@.len() == self.elements.len());
            assert(self@.labels =~= old(self)@.labels.push(None));
            assert(self@ =~= old(self)@.appended(value, None));
        }
        Ok(())
    }

    /// The element the index maps `key` to, whatever the perspective.
    pub fn get_raw(&self, key: &str) -> (r: Option<&T>)
        requires
            self.wf(),
        ensures
            r == (if self@.index.contains_key(key@) && self@.index[key@] < self@.slots.len() {
                Some(&self@.slots[self@.index[key@] as int])
            } else {
                None::<&T>
            }),
    {
        match self.hash_idx.get(key) {
            Some(idx) => {
                if idx < self.elements.len() {
                    Some(&self.elements[idx])
                } else {
                    None
                }
            },
            None => None,
        }
    }

    /// Under Hash, sets the element of `key`, appending it if the key is new;
    /// ignores `frozen` and the capacity.
    pub fn set_raw(&mut self, key: &str, value: T) -> (r: Result<()>)
        requires
            old(self).wf(),
        ensures
            final(self).wf(),
            old(self)@.perspective != Perspective::Hash ==> r == Err::<(), StackError>(StackError::KeyRequired)
                && final(self)@ == old(self)@,
            old(self)@.perspective == Perspective::Hash ==> r == Ok::<(), StackError>(())
                && final(self)@ == old(self)@.after_push_keyed(key@, value),
    {
        if self.perspective != Perspective::Hash {
            return Err(StackError::KeyRequired);
        }
        match self.live_slot_of(key) {
            Some(idx) => {
                self.elements.set(idx, value);
                proof {
                    assert(self@ =~= old(self)@.after_push_keyed(key@, value));
                }
            },
            None => {
                let idx = self.elements.len();
                self.elements.push(value);
                self.keys.push(Some(key.to_owned()));
                self.hash_idx.insert(key, idx);
                proof {
                    assert(self.elements@.len() == self.elements.len());
                    assert(self@.labels =~= old(self)@.labels.push(Some(key@)));
                    assert(self@ =~= old(self)@.after_push_keyed(key@, value));
                }
            },
        }
        Ok(())
    }

    /// The live element at position `index`, counted from the oldest.
    pub fn get_at_raw(&self, index: usize) -> (r: Option<&T>)
        requires
            self.wf(),
        ensures
            r == (if index < self@.len() {
                Some(&self@.slots[self@.head + index])
            } else {
                None::<&T>
            }),
    {
        if index >= self.elements.len() - self.head {
            return None;
        }
        Some(&self.elements[self.head + index])
    }

    /// Sets the live element at position `index`; a position past the end first
    /// extends the stack with copies of `value`.
    pub fn set_at_raw(&mut self, index: usize, value: T) -> (r: Result<()>)
        requires
            old(self).wf(),
        ensures
            final(self).wf(),
            old(self)@.head + index >= usize::MAX ==> r == Err::<(), StackError>(StackError::IndexOutOfBounds)
                && final(self)@ == old(self)@,
            old(self)@.head + index < usize::MAX ==> {
                let t = old(self)@.head + index;
                let n = old(self)@.slots.len() as int;
                &&& r == Ok::<(), StackError>(())
                &&& final(self)@.slots.len() == if t < n { n } else { t + 1 }
                &&& final(self)@.slots[t] == value
                &&& forall|j: int| 0 <= j < n && j != t ==> final(self)@.slots[j] == old(self)@.slots[j]
                &&& forall|j: int| n <= j < t ==> cloned(value, #[trigger] final(self)@.slots[j])
                &&& forall|j: int| 0 <= j < n ==> final(self)@.labels[j] == old(self)@.labels[j]
                &&& forall|j: int| n <= j < final(self)@.slots.len() ==> final(self)@.labels[j] == None::<Seq<char>>
                &&& final(self)@ == (StackView { slots: final(self)@.slots, labels: final(self)@.labels, ..old(self)@ })
            },
    {
        if index >= usize::MAX - self.head {
            return Err(StackError::IndexOutOfBounds);
        }
        let t = self.head + index;
        let n = self.elements.len();
        while self.elements.len() <= t
            invariant
                self.elements@.len() == self.keys@.len(),
                n <= self.elements@.len(),
                self.elements@.len() > n ==> self.elements@.len() <= t + 1,
                n == old(self).keys@.len(),
                t < usize::MAX,
                t == old(self)@.head + index,
                n == old(self).elements@.len(),
                self.head == old(self).head,
                self.perspective == old(self).perspective,
                self.frozen == old(self).frozen,
                self.closed == old(self).closed,
                self.capacity == old(self).capacity,
                self.hash_idx == old(self).hash_idx,
                forall|j: int| 0 <= j < n ==> self.elements@[j] == old(self).elements@[j],
                forall|j: int| 0 <= j < n ==> self.keys@[j] == old(self).keys@[j],
                forall|j: int| n <= j < self.elements@.len() ==> cloned(value, #[trigger] self.elements@[j]),
                forall|j: int| n <= j < self.keys@.len() ==> self.keys@[j] == None::<String>,
            decreases t + 1 - self.elements@.len(),
        {
            let copy = value.clone();
            self.elements.push(copy);
            self.keys.push(None);
        }
        self.elements.set(t, value);
        proof {
            assert(self.elements@.len() == self.elements.len());
            assert forall|j: int| 0 <= j < n implies self@.labels[j] == old(self)@.labels[j] by {
                assert(self@.labels[j] == label_of(self.keys@[j]));
                assert(old(self)@.labels[j] == label_of(old(self).keys@[j]));
            }
            assert forall|j: int| n <= j < self@.slots.len() implies self@.labels[j] == None::<Seq<char>> by {
                assert(self@.labels[j] == label_of(self.keys@[j]));
            }
        }
        Ok(())
    }

    /// The live elements, oldest first.
    pub fn as_slice(&self) -> (r: &[T])
        requires
            self.wf(),
        ensures
            r@ == self@.live(),
    {
        vstd::slice::slice_subrange(self.elements.as_slice(), self.head, self.elements.len())
    }
}

/// Visiting the labels oldest first yields an index whose every entry names
/// a slot that carries that label.
pub proof fn lemma_index_of_labels_points(labels: Seq<Option<Seq<char>>>)
    requires
        labels.len() <= usize::MAX,
    ensures
        forall|k: Seq<char>| #[trigger] index_of_labels(labels).contains_key(k) ==> {
            &&& index_of_labels(labels)[k] < labels.len()
            &&& labels[index_of_labels(labels)[k] as int] == Some(k)
        },
    decreases labels.len(),
{
    if labels.len() > 0 {
        let prev = labels.drop_last();
        lemma_index_of_labels_points(prev);
        assert forall|k: Seq<char>| #[trigger] index_of_labels(labels).contains_key(k) implies {
            &&& index_of_labels(labels)[k] < labels.len()
            &&& labels[index_of_labels(labels)[k] as int] == Some(k)
        } by {
            let m = index_of_labels(labels);
            assert(m == match labels.last() {
                Some(k2) => index_of_labels(prev).insert(k2, (labels.len() - 1) as usize),
                None => index_of_labels(prev),
            });
            if labels.last() != Some(k) {
                assert(index_of_labels(prev).contains_key(k));
                assert(labels[index_of_labels(prev)[k] as int] == prev[index_of_labels(prev)[k] as int]);
            }
        }
    }
}

} // verus!
