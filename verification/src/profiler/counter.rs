//! A profiler event counter.
use vstd::prelude::*;

verus! {

#[derive(Clone, Copy)]
pub struct ProfilerCounter {
    pub value: u64,
}

impl ProfilerCounter {
    pub fn new() -> (c: Self)
        ensures
            c.value == 0,
    {
        ProfilerCounter { value: 0 }
    }
}

} // verus!
