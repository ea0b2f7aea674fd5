//! Shared string helpers: the few `String` operations that vstd leaves
//! unspecified, taken on trust, and small verified builders on top of them.

use vstd::prelude::*;

verus! {

/// Relies on `String::push`: appends exactly one character.
#[verifier::external_body]
pub(crate) fn push_char(s: &mut String, c: char)
    ensures
        final(s)@ == old(s)@.push(c),
{
    s.push(c);
}

/// What `str::to_lowercase` returns; it depends on the characters alone.
pub uninterp spec fn lower_of(s: Seq<char>) -> Seq<char>;

/// Relies on `str::to_lowercase`: Unicode lowercasing, a pure function of
/// the input characters.
#[verifier::external_body]
pub(crate) fn lowercase(s: &str) -> (r: String)
    ensures
        r@ == lower_of(s@),
        s@.len() == 0 ==> r@.len() == 0,
{
    s.to_lowercase()
}

/// Builds the string holding `n` copies of `c`.
pub fn repeat_char(c: char, n: usize) -> (r: String)
    ensures
        r@ == Seq::new(n as nat, |i: int| c),
{
    let mut r = String::new();
    let mut k: usize = 0;
    while k < n
        invariant
            k <= n,
            r@ == Seq::new(k as nat, |i: int| c),
        decreases n - k,
    {
        push_char(&mut r, c);
        proof {
            assert(r@ =~= Seq::new((k + 1) as nat, |i: int| c));
        }
        k = k + 1;
    }
    r
}

} // verus!
