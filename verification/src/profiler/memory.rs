//! Heap usage figure.
use vstd::prelude::*;

verus! {

pub struct MemoryStats {
    pub heap_usage: usize,
}

impl MemoryStats {
    pub fn new() -> (m: Self)
        ensures
            m.heap_usage == 0,
    {
        MemoryStats { heap_usage: 0 }
    }
}

} // verus!
