//! The shared counter that the lock demonstrations guard.

use vstd::prelude::*;

verus! {

#[derive(Debug)]
pub struct Counter {
    count: i32,
}

impl Counter {
    /// The current count.
    pub closed spec fn spec_count(&self) -> int {
        self.count as int
    }

    pub fn new() -> (r: Counter)
        ensures
            r.spec_count() == 0,
    {
        Counter { count: 0 }
    }

    pub fn increment(&mut self)
        requires
            old(self).spec_count() < i32::MAX,
        ensures
            final(self).spec_count() == old(self).spec_count() + 1,
    {
        self.count = self.count + 1;
    }

    pub fn get_count(&self) -> (r: i32)
        ensures
            r == self.spec_count(),
    {
        self.count
    }
}

} // verus!
