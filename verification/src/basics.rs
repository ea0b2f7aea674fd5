//! Small result- and option-returning helpers, and the first-word slicers.

use vstd::prelude::*;
use vstd::string::{StrSliceExecFns, StringExecFns};

verus! {

pub fn sum(x: i32, y: i32) -> (r: i32)
    requires
        i32::MIN <= x + y <= i32::MAX,
    ensures
        r == x + y,
{
    x + y
}

/// `Some` of the value, unless it is zero.
pub fn return_option(value: i32) -> (r: Option<i32>)
    ensures
        value == 0 ==> r is None,
        value != 0 ==> r == Some(value),
{
    if value == 0 {
        None
    } else {
        Some(value)
    }
}

/// A message for positive values, an error message otherwise.
pub fn return_result(value: i32) -> (r: Result<String, String>)
    ensures
        value > 0 ==> r is Ok && (r->Ok_0)@ == "value is bigger than zero"@,
        value <= 0 ==> r is Err && (r->Err_0)@ == "value is less than zero"@,
{
    if value > 0 {
        Ok(String::from_str("value is bigger than zero"))
    } else {
        Err(String::from_str("value is less than zero"))
    }
}

pub fn might_fail(num: i32) -> (r: Result<i32, &'static str>)
    ensures
        num > 0 ==> r == Ok::<i32, &'static str>(num),
        num <= 0 ==> r is Err && (r->Err_0)@ == "Something went wrong"@,
{
    if num > 0 {
        Ok(num)
    } else {
        Err("Something went wrong")
    }
}

pub fn might_fail2(num: i32) -> (r: Result<i32, String>)
    ensures
        num > 0 ==> r is Ok && r->Ok_0 == num,
        num <= 0 ==> r is Err && (r->Err_0)@ == "Something went wrong"@,
{
    if num > 0 {
        Ok(num)
    } else {
        Err(String::from_str("Something went wrong"))
    }
}

/// The id if there is one, otherwise an error.
pub fn get_username(id: Option<&str>) -> (r: Result<&str, String>)
    ensures
        id is Some ==> r is Ok && (r->Ok_0)@ == (id->0)@,
        id is None ==> r is Err && (r->Err_0)@ == "id is none"@,
{
    match id {
        Some(name) => Ok(name),
        None => Err(String::from_str("id is none")),
    }
}

/// The same check with the error built eagerly.
pub fn get_username2(id: Option<&str>) -> (r: Result<&str, String>)
    ensures
        id is Some ==> r is Ok && (r->Ok_0)@ == (id->0)@,
        id is None ==> r is Err && (r->Err_0)@ == "id is none"@,
{
    match id {
        Some(name) => Ok(name),
        None => Err(String::from_str("id is none")),
    }
}

/// The same check once more, for callers that propagate the error.
pub fn get_username3(id: Option<&str>) -> (r: Result<&str, String>)
    ensures
        id is Some ==> r is Ok && (r->Ok_0)@ == (id->0)@,
        id is None ==> r is Err && (r->Err_0)@ == "id is none"@,
{
    match id {
        Some(name) => Ok(name),
        None => Err(String::from_str("id is none")),
    }
}

pub fn get_result(value: i32) -> (r: Result<i32, &'static str>)
    ensures
        value > 0 ==> r == Ok::<i32, &'static str>(value),
        value <= 0 ==> r is Err && (r->Err_0)@ == "value is less than zero"@,
{
    if value > 0 {
        Ok(value)
    } else {
        Err("value is less than zero")
    }
}

/// The first character of `s` as an owned string, decoupled from `s`.
pub fn first_word(s: &str) -> (r: Option<String>)
    ensures
        s@.len() == 0 ==> r is None,
        s@.len() > 0 ==> r is Some && (r->0)@ == s@.subrange(0, 1),
{
    if s.unicode_len() == 0 {
        None
    } else {
        Some(s.substring_char(0, 1).to_owned())
    }
}

/// The first character of `s` as a borrowed slice. This slices one byte,
/// so only strings whose first character is ASCII are allowed.
pub fn first_word2(s: &str) -> (r: &str)
    requires
        s@.len() >= 1,
        (s@[0] as u32) < 128,
    ensures
        r@ == s@.subrange(0, 1),
{
    s.substring_char(0, 1)
}

} // verus!
