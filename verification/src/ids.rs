//! Factory ids handed out from a counter that the caller owns and passes
//! in.

use vstd::prelude::*;

verus! {

/// Bumps the counter and hands back the new value.
pub fn generate_id(counter: &mut usize) -> (r: usize)
    requires
        *old(counter) < usize::MAX,
    ensures
        *final(counter) == *old(counter) + 1,
        r == *final(counter),
{
    *counter = *counter + 1;
    *counter
}

pub struct Factory {
    pub factory_id: usize,
}

impl Factory {
    pub fn new(counter: &mut usize) -> (r: Factory)
        requires
            *old(counter) < usize::MAX,
        ensures
            *final(counter) == *old(counter) + 1,
            r.factory_id == *final(counter),
    {
        Factory { factory_id: generate_id(counter) }
    }
}

} // verus!
