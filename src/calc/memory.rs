//! The calculator's word-addressed memory.
use vstd::prelude::*;
use std::collections::HashMap;

verus! {

broadcast use vstd::std_specs::hash::group_hash_axioms;

/// Words stored at integer addresses.
pub struct Memory {
    cells: HashMap<i32, i32>,
}

impl View for Memory {
    type V = Map<i32, i32>;

    closed spec fn view(&self) -> Map<i32, i32> {
        self.cells@
    }
}

impl Memory {
    /// A memory with nothing stored.
    pub fn new() -> (r: Memory)
        ensures
            r@ == Map::<i32, i32>::empty(),
    {
        Memory { cells: HashMap::new() }
    }
}

/// Stores `value` at `address`, replacing what was there.
pub fn store(memory: &mut Memory, address: i32, value: i32)
    ensures
        final(memory)@ == old(memory)@.insert(address, value),
{
    memory.cells.insert(address, value);
}

/// The value stored at `address`, if any.
pub fn load(memory: &Memory, address: i32) -> (r: Option<i32>)
    ensures
        r == (if memory@.contains_key(address) {
            Some(memory@[address])
        } else {
            None::<i32>
        }),
{
    match memory.cells.get(&address) {
        Some(v) => Some(*v),
        None => None,
    }
}

} // verus!
