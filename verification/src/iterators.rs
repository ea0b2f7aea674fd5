//! A hand-rolled counter that yields 1 through 5. The iterator trait
//! cannot carry contracts here, so the stepping is an inherent method;
//! adapters wrap it where the trait is wanted.

use vstd::prelude::*;

verus! {

pub struct Counter {
    count: u32,
}

impl Counter {
    /// The number of values already yielded.
    pub closed spec fn spec_count(&self) -> int {
        self.count as int
    }

    pub fn new() -> (r: Counter)
        ensures
            r.spec_count() == 0,
    {
        Counter { count: 0 }
    }

    /// Yields 1, 2, 3, 4, 5, then nothing.
    pub fn next(&mut self) -> (r: Option<u32>)
        ensures
            old(self).spec_count() < 5 ==> r == Some((old(self).spec_count() + 1) as u32)
                && final(self).spec_count() == old(self).spec_count() + 1,
            old(self).spec_count() >= 5 ==> r is None && final(self).spec_count() == old(
                self,
            ).spec_count(),
    {
        if self.count < 5 {
            self.count = self.count + 1;
            Some(self.count)
        } else {
            None
        }
    }
}

} // verus!
