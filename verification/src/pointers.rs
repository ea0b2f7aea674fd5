//! Smart-pointer demonstrations that compute something: string building
//! behind a borrow, a leaked static string, and a person built from owned
//! parts.

use vstd::prelude::*;
use vstd::string::StringExecFns;

verus! {

/// A greeting built onto the borrowed name.
pub fn foo(x: &str) -> (r: String)
    ensures
        r@ == "hello,"@ + x@,
{
    let mut r = String::from_str("hello,");
    r.append(x);
    r
}

/// Relies on `Box::leak` via `String::into_boxed_str`: the string's
/// characters, given away for the program's whole lifetime.
#[verifier::external_body]
fn leak_string(s: String) -> (r: &'static str)
    ensures
        r@ == s@,
{
    Box::leak(s.into_boxed_str())
}

/// A run-time-built string promoted to a static borrow.
pub fn gen_static_str() -> (r: &'static str)
    ensures
        r@ == "hello"@ + ", world!"@,
{
    let mut s = String::from_str("hello");
    s.append(", world!");
    leak_string(s)
}

#[derive(Debug)]
pub struct Person {
    pub name: String,
    pub age: u8,
}

impl Person {
    pub fn new(name: String, age: u8) -> (r: Person)
        ensures
            r.name == name,
            r.age == age,
    {
        Person { name, age }
    }
}

} // verus!
