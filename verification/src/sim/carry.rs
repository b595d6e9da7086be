//! Remainders that the game's integer arithmetic truncates away, kept per
//! game object (by its address) from one frame to the next.

use std::collections::HashMap;
use vstd::prelude::*;

verus! {

/// The carried remainder of each object that has one.
pub struct CarryTable {
    carries: HashMap<usize, i32>,
}

impl View for CarryTable {
    type V = Map<usize, i32>;

    closed spec fn view(&self) -> Map<usize, i32> {
        self.carries@
    }
}

/// The remainder carried for `key`: 0 for an object that has none.
pub open spec fn carry_of(carries: Map<usize, i32>, key: usize) -> i32 {
    if carries.contains_key(key) {
        carries[key]
    } else {
        0
    }
}

impl CarryTable {
    /// A table with no remainders.
    pub fn new() -> (t: CarryTable)
        ensures
            t@ == Map::<usize, i32>::empty(),
    {
        CarryTable { carries: HashMap::new() }
    }

    /// The remainder carried for `key`.
    pub fn get(&self, key: usize) -> (c: i32)
        ensures
            c == carry_of(self@, key),
    {
        match self.carries.get(&key) {
            Some(c) => *c,
            None => 0,
        }
    }

    /// Carries `value` for `key`.
    pub fn set(&mut self, key: usize, value: i32)
        ensures
            final(self)@ == old(self)@.insert(key, value),
    {
        self.carries.insert(key, value);
    }

    /// Forgets the remainder of `key`.
    pub fn forget(&mut self, key: usize)
        ensures
            final(self)@ == old(self)@.remove(key),
    {
        self.carries.remove(&key);
    }
}

} // verus!
