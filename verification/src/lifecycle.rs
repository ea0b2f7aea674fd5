//! Lifetime demonstrations: a static string, the longer of two borrows, a
//! struct borrowing its name, and a result type chosen by the caller.

use vstd::prelude::*;
use vstd::string::{StringExecFns, StringSliceAdditionalSpecFns};

verus! {

pub fn get_str() -> (r: &'static str)
    ensures
        r@ == "Hello, World!"@,
{
    "Hello, World!"
}

/// The longer of the two, length counted as `str::len` counts it: in
/// bytes, ties going to the second.
pub fn longest<'a>(s1: &'a str, s2: &'a str) -> (r: &'a str)
    ensures
        (s1.spec_bytes().len() as usize) > (s2.spec_bytes().len() as usize) ==> r@ == s1@,
        (s1.spec_bytes().len() as usize) <= (s2.spec_bytes().len() as usize) ==> r@ == s2@,
{
    if s1.len() > s2.len() {
        s1
    } else {
        s2
    }
}

/// A person borrowing its name from elsewhere.
pub struct Person<'a> {
    pub name: &'a str,
}

/// A value the caller's chosen type can conjure. Each implementation says
/// in `is_magic` what its conjured value looks like.
pub trait MagicResult: Sized {
    spec fn is_magic(r: &Self) -> bool;

    fn magic() -> (r: Self)
        ensures
            Self::is_magic(&r),
    ;
}

impl MagicResult for String {
    open spec fn is_magic(r: &Self) -> bool {
        r@ == "hello"@
    }

    fn magic() -> (r: Self)
        ensures
            Self::is_magic(&r),
    {
        String::from_str("hello")
    }
}

impl MagicResult for u8 {
    open spec fn is_magic(r: &Self) -> bool {
        *r == 10u8
    }

    fn magic() -> (r: Self)
        ensures
            Self::is_magic(&r),
    {
        10
    }
}

/// Conjures whatever the caller's type can conjure.
pub fn func<T: MagicResult>() -> (r: T)
    ensures
        T::is_magic(&r),
{
    T::magic()
}

} // verus!
