//! Higher-order helpers: calling closures through the three function
//! traits, a one-shot cache around a query closure, and the decision inside
//! the workout demo.

use vstd::prelude::*;

verus! {

/// Calls `f` on `x` and passes its postcondition through.
pub fn call_fn<F: Fn(i32) -> i32>(f: F, x: i32) -> (r: i32)
    requires
        call_requires(f, (x,)),
    ensures
        call_ensures(f, (x,), r),
{
    f(x)
}

/// Calls a mutable closure once.
pub fn call_fn_mut<F: FnMut() -> ()>(mut f: F) -> (r: ())
    requires
        call_requires(f, ()),
    ensures
        call_ensures(f, (), r),
{
    f()
}

/// Consumes a one-shot closure.
pub fn call_fn_once<F: FnOnce() -> ()>(f: F) -> (r: ())
    requires
        call_requires(f, ()),
    ensures
        call_ensures(f, (), r),
{
    f()
}

/// Caches the first answer a query closure gives and returns it ever after,
/// whatever is asked later — a deliberately naive one-slot cache.
pub struct Cacher<T> where T: Fn(u32) -> u32 {
    query: T,
    value: Option<u32>,
}

impl<T> Cacher<T> where T: Fn(u32) -> u32 {
    /// The cached answer, if one was computed.
    pub closed spec fn cached(&self) -> Option<u32> {
        self.value
    }

    /// The query closure.
    pub closed spec fn spec_query(&self) -> T {
        self.query
    }

    pub fn new(query: T) -> (r: Cacher<T>)
        ensures
            r.cached() is None,
            r.spec_query() == query,
    {
        Cacher { query, value: None }
    }

    /// The cached value if there is one; otherwise the closure's answer for
    /// `args`, which is cached from then on.
    pub fn value(&mut self, args: u32) -> (r: u32)
        requires
            call_requires(old(self).spec_query(), (args,)),
        ensures
            final(self).spec_query() == old(self).spec_query(),
            old(self).cached() matches Some(v) ==> r == v && final(self).cached() == old(
                self,
            ).cached(),
            old(self).cached() is None ==> call_ensures(old(self).spec_query(), (args,), r)
                && final(self).cached() == Some(r),
    {
        match self.value {
            Some(v) => v,
            None => {
                let v = (self.query)(args);
                self.value = Some(v);
                v
            }
        }
    }
}

/// What a workout round does.
pub enum WorkoutStep {
    /// Low intensity: run the exercise closure.
    Exercise,
    /// The lucky number came up: just make the announcement.
    Announcement,
    /// Nothing to do this round.
    Rest,
}

/// The decision inside the workout demo: exercise below intensity 25,
/// announce on a random number of 3, otherwise rest. Running the chosen
/// step (and its sleeping) stays outside the library.
pub fn workout_decision(intensity: u32, random_number: u32) -> (r: WorkoutStep)
    ensures
        intensity < 25 ==> r is Exercise,
        intensity >= 25 && random_number == 3 ==> r is Announcement,
        intensity >= 25 && random_number != 3 ==> r is Rest,
{
    if intensity < 25 {
        WorkoutStep::Exercise
    } else if random_number == 3 {
        WorkoutStep::Announcement
    } else {
        WorkoutStep::Rest
    }
}

} // verus!
