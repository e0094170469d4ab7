//! Ordering laws of the perspective stack, stated over the model that the
//! operations' contracts use.
use vstd::prelude::*;
use vstd::multiset::Multiset;
use crate::error::StackError;
use crate::model::{Perspective, PopParam, StackView};

verus! {

/// The state after pushing every element of `xs`, oldest first, with plain pushes.
pub open spec fn push_all<T>(s: StackView<T>, xs: Seq<T>) -> StackView<T>
    decreases xs.len(),
{
    if xs.len() == 0 {
        s
    } else {
        let before = push_all(s, xs.drop_last());
        match before.push_error() {
            None => before.appended(xs.last(), None),
            Some(_) => before,
        }
    }
}

/// The slot a default pop takes.
pub open spec fn default_target<T>(s: StackView<T>) -> int {
    s.pop_target(None::<PopParam>)->Ok_0
}

/// The state after one default pop.
pub open spec fn pop_step<T>(s: StackView<T>) -> StackView<T> {
    s.after_pop(default_target(s), Seq::empty())
}

/// The state after `n` default pops.
pub open spec fn pop_times<T>(s: StackView<T>, n: nat) -> StackView<T>
    decreases n,
{
    if n == 0 {
        s
    } else {
        pop_times(pop_step(s), (n - 1) as nat)
    }
}

/// The values that `n` default pops return, first popped first.
pub open spec fn pop_values<T>(s: StackView<T>, n: nat) -> Seq<T>
    decreases n,
{
    if n == 0 {
        Seq::empty()
    } else {
        seq![s.slots[default_target(s)]] + pop_values(pop_step(s), (n - 1) as nat)
    }
}

/// Whether each of `n` default pops succeeds.
pub open spec fn pops_succeed<T>(s: StackView<T>, n: nat) -> bool
    decreases n,
{
    n == 0 || (s.pop_error(None) is None && pops_succeed(pop_step(s), (n - 1) as nat))
}

/// There is room for `extra` more elements.
pub open spec fn has_room<T>(s: StackView<T>, extra: int) -> bool {
    &&& s.capacity == 0 || s.len() + extra <= s.capacity
    &&& s.slots.len() + extra <= usize::MAX
}

/// Plain pushes outside Hash append to the live elements.
pub proof fn lemma_push_all_appends<T>(s: StackView<T>, xs: Seq<T>)
    requires
        s.wf(),
        s.perspective != Perspective::Hash,
        !s.frozen,
        has_room(s, xs.len() as int),
    ensures
        push_all(s, xs).wf(),
        push_all(s, xs).live() == s.live() + xs,
        push_all(s, xs).perspective == s.perspective,
        push_all(s, xs).frozen == s.frozen,
        push_all(s, xs).capacity == s.capacity,
        push_all(s, xs).head == s.head,
    decreases xs.len(),
{
    if xs.len() > 0 {
        let before = push_all(s, xs.drop_last());
        lemma_push_all_appends(s, xs.drop_last());
        assert(before.live().len() == before.len());
        assert(before.push_error() is None);
        let after = before.appended(xs.last(), None);
        assert(after.live() =~= before.live().push(xs.last()));
        assert(xs.drop_last().push(xs.last()) =~= xs);
        assert(after.live() =~= s.live() + xs);
    }
}

/// Default LIFO pops return the live elements newest first.
pub proof fn lemma_lifo_pops<T>(s: StackView<T>, n: nat)
    requires
        s.wf(),
        s.perspective == Perspective::LIFO,
        !s.frozen,
        n <= s.len(),
    ensures
        pops_succeed(s, n),
        pop_values(s, n) == s.live().reverse().take(n as int),
        pop_times(s, n).wf(),
        pop_times(s, n).perspective == Perspective::LIFO,
        !pop_times(s, n).frozen,
        pop_times(s, n).live() == s.live().take(s.len() - n),
    decreases n,
{
    if n > 0 {
        let t = default_target(s);
        let next = pop_step(s);
        assert(t == s.slots.len() - 1);
        assert(next.slots == s.slots.remove(t));
        assert(next.live() =~= s.live().drop_last());
        lemma_lifo_pops(next, (n - 1) as nat);
        let rest = pop_values(next, (n - 1) as nat);
        assert(rest == next.live().reverse().take(n - 1));
        assert(pop_values(s, n) =~= s.live().reverse().take(n as int)) by {
            assert(s.slots[t] == s.live().last());
            assert forall|i: int| 0 <= i < n - 1 implies
                next.live().reverse()[i] == s.live().reverse()[i + 1] by {}
        }
        assert(pop_times(s, n).live() =~= s.live().take(s.len() - n));
    }
}

/// Default FIFO pops return the live elements oldest first.
pub proof fn lemma_fifo_pops<T>(s: StackView<T>, n: nat)
    requires
        s.wf(),
        s.perspective == Perspective::FIFO,
        !s.frozen,
        n <= s.len(),
    ensures
        pops_succeed(s, n),
        pop_values(s, n) == s.live().take(n as int),
        pop_times(s, n).wf(),
        pop_times(s, n).perspective == Perspective::FIFO,
        !pop_times(s, n).frozen,
        pop_times(s, n).live() == s.live().skip(n as int),
    decreases n,
{
    if n > 0 {
        let t = default_target(s);
        assert(t == s.head);
        let advanced = StackView { head: s.head + 1, ..s };
        let next = pop_step(s);
        assert(next == advanced.compacted());
        assert(advanced.live() =~= s.live().drop_first());
        assert(next.live() =~= advanced.live());
        lemma_fifo_pops(next, (n - 1) as nat);
        assert(pop_values(s, n) =~= s.live().take(n as int));
        assert(pop_times(s, n).live() =~= s.live().skip(n as int));
    }
}

/// On an empty LIFO stack, pushing `xs` and popping `xs.len()` times returns
/// `xs` newest first, and one more pop fails `Empty`.
pub proof fn lemma_lifo_round_trip<T>(s: StackView<T>, xs: Seq<T>)
    requires
        s.wf(),
        s.perspective == Perspective::LIFO,
        !s.frozen,
        s.is_empty(),
        has_room(s, xs.len() as int),
    ensures
        pops_succeed(push_all(s, xs), xs.len()),
        pop_values(push_all(s, xs), xs.len()) == xs.reverse(),
        pop_times(push_all(s, xs), xs.len()).pop_error(None) == Some(StackError::Empty),
{
    lemma_push_all_appends(s, xs);
    let full = push_all(s, xs);
    assert(s.live() =~= Seq::<T>::empty());
    assert(full.live() =~= xs);
    lemma_lifo_pops(full, xs.len());
    assert(xs.reverse().take(xs.len() as int) =~= xs.reverse());
    let last = pop_times(full, xs.len());
    assert(last.live().len() == last.len());
    assert(full.live().take(0) =~= Seq::<T>::empty());
}

/// On an empty FIFO stack, pushing `xs` and popping `xs.len()` times returns
/// `xs` oldest first, and one more pop fails `Empty`.
pub proof fn lemma_fifo_round_trip<T>(s: StackView<T>, xs: Seq<T>)
    requires
        s.wf(),
        s.perspective == Perspective::FIFO,
        !s.frozen,
        s.is_empty(),
        has_room(s, xs.len() as int),
    ensures
        pops_succeed(push_all(s, xs), xs.len()),
        pop_values(push_all(s, xs), xs.len()) == xs,
        pop_times(push_all(s, xs), xs.len()).pop_error(None) == Some(StackError::Empty),
{
    lemma_push_all_appends(s, xs);
    let full = push_all(s, xs);
    assert(s.live() =~= Seq::<T>::empty());
    assert(full.live() =~= xs);
    lemma_fifo_pops(full, xs.len());
    assert(xs.take(xs.len() as int) =~= xs);
    let last = pop_times(full, xs.len());
    assert(last.live().len() == last.len());
    assert(full.live().skip(xs.len() as int) =~= Seq::<T>::empty());
}

/// The perspective of an owner (`false`: LIFO) or a thief (`true`: FIFO).
pub open spec fn role(thief: bool) -> Perspective {
    if thief {
        Perspective::FIFO
    } else {
        Perspective::LIFO
    }
}

/// The value a default pop through a view with perspective `p` returns.
pub open spec fn view_value<T>(s: StackView<T>, p: Perspective) -> T {
    let w = s.with_perspective(p);
    w.slots[default_target(w)]
}

/// The state after a default pop through a view with perspective `p`.
pub open spec fn view_step<T>(s: StackView<T>, p: Perspective) -> StackView<T> {
    pop_step(s.with_perspective(p)).with_perspective(s.perspective)
}

/// The values that a run of owner and thief pops returns, in order.
pub open spec fn role_values<T>(s: StackView<T>, thieves: Seq<bool>) -> Seq<T>
    decreases thieves.len(),
{
    if thieves.len() == 0 {
        Seq::empty()
    } else {
        seq![view_value(s, role(thieves[0]))] + role_values(
            view_step(s, role(thieves[0])),
            thieves.drop_first(),
        )
    }
}

/// The state after a run of owner and thief pops.
pub open spec fn role_state<T>(s: StackView<T>, thieves: Seq<bool>) -> StackView<T>
    decreases thieves.len(),
{
    if thieves.len() == 0 {
        s
    } else {
        role_state(view_step(s, role(thieves[0])), thieves.drop_first())
    }
}

/// Whether every pop of a run of owner and thief pops succeeds.
pub open spec fn role_pops_succeed<T>(s: StackView<T>, thieves: Seq<bool>) -> bool
    decreases thieves.len(),
{
    thieves.len() == 0 || (s.with_perspective(role(thieves[0])).pop_error(None) is None
        && role_pops_succeed(view_step(s, role(thieves[0])), thieves.drop_first()))
}

broadcast use vstd::seq_lib::group_to_multiset_ensures, vstd::multiset::group_multiset_axioms;

proof fn lemma_view_step<T>(s: StackView<T>, thief: bool)
    requires
        s.wf(),
        s.perspective != Perspective::Hash,
        !s.frozen,
        s.len() > 0,
    ensures
        s.with_perspective(role(thief)).pop_error(None) is None,
        view_step(s, role(thief)).wf(),
        view_step(s, role(thief)).perspective == s.perspective,
        !view_step(s, role(thief)).frozen,
        view_step(s, role(thief)).len() == s.len() - 1,
        s.live().to_multiset() == view_step(s, role(thief)).live().to_multiset().insert(
            view_value(s, role(thief)),
        ),
{
    let p = role(thief);
    let w = s.with_perspective(p);
    assert(w == StackView { perspective: p, ..s });
    assert(w.live() == s.live());
    let next = view_step(s, p);
    if thief {
        lemma_fifo_pops(w, 1);
        let stepped = pop_step(w);
        assert(pop_times(w, 1) == pop_times(stepped, 0));
        assert(next == StackView { perspective: s.perspective, ..stepped });
        assert(next.live() == w.live().skip(1));
        assert(w.slots[default_target(w)] == w.live()[0]);
        assert(w.live().remove(0) =~= w.live().skip(1));
        assert(w.live().to_multiset().remove(w.live()[0]) == next.live().to_multiset());
        assert(w.live().to_multiset() =~= next.live().to_multiset().insert(w.live()[0]));
    } else {
        lemma_lifo_pops(w, 1);
        let stepped = pop_step(w);
        assert(pop_times(w, 1) == pop_times(stepped, 0));
        assert(next == StackView { perspective: s.perspective, ..stepped });
        assert(next.live() == w.live().take(w.len() - 1));
        assert(w.slots[default_target(w)] == w.live().last());
        assert(w.live() =~= next.live().push(w.live().last()));
    }
    assert(next.live().len() == next.len());
}

/// Any run of owner pops (LIFO) and thief pops (FIFO) on one stack, as many
/// as it holds, returns every element exactly once and leaves it empty.
pub proof fn lemma_owner_thief_exactly_once<T>(s: StackView<T>, thieves: Seq<bool>)
    requires
        s.wf(),
        s.perspective != Perspective::Hash,
        !s.frozen,
        thieves.len() <= s.len(),
    ensures
        role_pops_succeed(s, thieves),
        role_values(s, thieves).to_multiset().add(role_state(s, thieves).live().to_multiset())
            == s.live().to_multiset(),
        thieves.len() == s.len() ==> role_values(s, thieves).to_multiset() == s.live().to_multiset()
            && role_state(s, thieves).is_empty(),
    decreases thieves.len(),
{
    if thieves.len() == 0 {
        assert(role_values(s, thieves) =~= Seq::<T>::empty());
        assert(Seq::<T>::empty().to_multiset() =~= Multiset::<T>::empty());
        assert(Multiset::<T>::empty().add(s.live().to_multiset()) =~= s.live().to_multiset());
        if s.len() == 0 {
            assert(s.live().to_multiset().len() == 0);
        }
    } else {
        let p = role(thieves[0]);
        let v = view_value(s, p);
        let next = view_step(s, p);
        lemma_view_step(s, thieves[0]);
        lemma_owner_thief_exactly_once(next, thieves.drop_first());
        let rest = role_values(next, thieves.drop_first());
        let fin = role_state(next, thieves.drop_first());
        assert(role_values(s, thieves) == seq![v] + rest);
        assert(role_state(s, thieves) == fin);
        vstd::seq_lib::lemma_multiset_commutative(seq![v], rest);
        assert(seq![v].to_multiset() =~= Multiset::<T>::empty().insert(v)) by {
            assert(seq![v] =~= Seq::<T>::empty().push(v));
            assert(Seq::<T>::empty().to_multiset() =~= Multiset::<T>::empty());
        }
        assert((seq![v] + rest).to_multiset().add(fin.live().to_multiset()) =~= s.live().to_multiset());
        if thieves.len() == s.len() {
            assert(fin.live().len() == fin.len());
            assert(fin.live().to_multiset() =~= Multiset::<T>::empty());
        }
    }
}

/// Under Indexed, popping position `i` returns the `i`-th live element, and
/// the element after it moves down into position `i`.
pub proof fn lemma_indexed_pop_shifts<T>(s: StackView<T>, i: usize)
    requires
        s.wf(),
        s.perspective == Perspective::Indexed,
        !s.frozen,
        i + 1 < s.len(),
    ensures
        s.pop_error(Some(PopParam::Index(i))) is None,
        s.slots[s.pop_target(Some(PopParam::Index(i)))->Ok_0] == s.live()[i as int],
        ({
            let after = s.after_pop(s.pop_target(Some(PopParam::Index(i)))->Ok_0, Seq::empty());
            &&& after.peek_error(Some(PopParam::Index(i))) is None
            &&& after.slots[after.peek_target(Some(PopParam::Index(i)))->Ok_0] == s.live()[i + 1]
        }),
{
    let t = s.head + i;
    assert(s.pop_target(Some(PopParam::Index(i))) == Ok::<int, StackError>(t));
    let after = s.after_pop(t, Seq::empty());
    assert(after.slots == s.slots.remove(t));
    assert(after.peek_target(Some(PopParam::Index(i))) == Ok::<int, StackError>(t));
}

/// Under Hash, a keyed push can be read back and popped under its key, after
/// which the key is gone.
pub proof fn lemma_hash_key_lifecycle<T>(s: StackView<T>, key: String, v: T)
    requires
        s.wf(),
        s.perspective == Perspective::Hash,
        s.push_keyed_error() is None,
    ensures
        ({
            let param = Some(PopParam::Key(key));
            let pushed = s.after_push_keyed(key@, v);
            let t = pushed.pop_target(param)->Ok_0;
            let popped = pushed.after_pop(t, key@);
            &&& pushed.peek_error(param) is None
            &&& pushed.slots[pushed.peek_target(param)->Ok_0] == v
            &&& pushed.pop_error(param) is None
            &&& pushed.slots[t] == v
            &&& popped.peek_error(param) == Some(StackError::KeyNotFound)
            &&& popped.pop_error(param) == Some(StackError::KeyNotFound)
        }),
{
    let param = Some(PopParam::Key(key));
    let pushed = s.after_push_keyed(key@, v);
    assert(pushed.index.contains_key(key@));
    if s.index.contains_key(key@) && s.index[key@] >= s.head {
        assert(pushed.slots[pushed.index[key@] as int] == v);
    } else {
        assert(pushed.index[key@] == s.slots.len());
        assert(pushed.slots[s.slots.len() as int] == v);
    }
    let t = pushed.pop_target(param)->Ok_0;
    let popped = pushed.after_pop(t, key@);
    assert(!popped.index.contains_key(key@));
    assert(popped.len() == pushed.len());
}

/// A frozen stack refuses every push and pop with `Frozen`, while a LIFO peek
/// still reads the newest element.
pub proof fn lemma_frozen_refuses_mutation<T>(s: StackView<T>, param: Option<PopParam>)
    requires
        s.wf(),
    ensures
        ({
            let f = StackView { frozen: true, ..s.compacted() };
            &&& f.push_error() == Some(StackError::Frozen)
            &&& f.push_keyed_error() == Some(StackError::Frozen)
            &&& f.pop_error(param) == Some(StackError::Frozen)
            &&& (s.perspective == Perspective::LIFO && !s.is_empty()) ==> {
                &&& f.peek_error(None) is None
                &&& f.slots[f.peek_target(None)->Ok_0] == s.live().last()
            }
        }),
{
    let c = s.compacted();
    assert(c.live() =~= s.live());
    assert(c.live().len() == c.len());
    assert(0 <= c.head <= c.slots.len());
}

/// A stack at its capacity refuses a push with `Full`; after one default LIFO
/// pop the push is accepted.
pub proof fn lemma_capacity_frees_on_pop<T>(s: StackView<T>)
    requires
        s.wf(),
        s.perspective == Perspective::LIFO,
        !s.frozen,
        s.capacity > 0,
        s.len() == s.capacity,
    ensures
        s.push_error() == Some(StackError::Full),
        s.pop_error(None) is None,
        pop_step(s).push_error() is None,
{
    lemma_lifo_pops(s, 1);
    assert(pop_times(s, 1) == pop_times(pop_step(s), 0));
    assert(pop_step(s).live().len() == pop_step(s).len());
}

} // verus!
