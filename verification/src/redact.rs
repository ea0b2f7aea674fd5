//! Masking personal data out of log lines: phone numbers lose their middle
//! four digits, dotted addresses lose their two middle groups. Both scans
//! replace the leftmost occurrence first and never overlap.

use crate::strutil::push_char;
use crate::text::is_digit;
use vstd::prelude::*;
use vstd::string::{StrSliceExecFns, StringExecFns};

verus! {

/// Eleven consecutive digits start at `i`: the shape of a phone number.
pub open spec fn phone_match_at(s: Seq<char>, i: int) -> bool {
    0 <= i && i + 11 <= s.len() && forall|m: int| i <= m < i + 11 ==> is_digit(#[trigger] s[m])
}

/// `s` from `i` on with every phone number's middle four digits starred.
pub open spec fn mask_phone_from(s: Seq<char>, i: int) -> Seq<char>
    decreases s.len() - i,
{
    if i < 0 || i >= s.len() {
        Seq::empty()
    } else if phone_match_at(s, i) {
        s.subrange(i, i + 3) + "****"@ + s.subrange(i + 7, i + 11) + mask_phone_from(s, i + 11)
    } else {
        seq![s[i]] + mask_phone_from(s, i + 1)
    }
}

/// Whether eleven digits start at position `i`.
fn eleven_digits_at(s: &str, i: usize) -> (r: bool)
    requires
        i < s@.len(),
    ensures
        r == phone_match_at(s@, i as int),
{
    let n = s.unicode_len();
    if n - i < 11 {
        return false;
    }
    let mut m: usize = 0;
    while m < 11
        invariant
            m <= 11,
            i + 11 <= n == s@.len(),
            forall|q: int| i <= q < i + m ==> is_digit(#[trigger] s@[q]),
        decreases 11 - m,
    {
        let code = s.get_char(i + m) as u32;
        if code < 48 || code > 57 {
            proof {
                assert(!is_digit(s@[i + m]));
            }
            return false;
        }
        m = m + 1;
    }
    true
}

/// Stars the middle four digits of every eleven-digit run in `s`.
pub fn mask_phone(s: &str) -> (r: String)
    ensures
        r@ == mask_phone_from(s@, 0),
{
    let n = s.unicode_len();
    let mut out = String::new();
    let mut i: usize = 0;
    while i < n
        invariant
            i <= n == s@.len(),
            out@ + mask_phone_from(s@, i as int) == mask_phone_from(s@, 0),
        decreases n - i,
    {
        let ghost prev = out@;
        if eleven_digits_at(s, i) {
            out.append(s.substring_char(i, i + 3));
            out.append("****");
            out.append(s.substring_char(i + 7, i + 11));
            proof {
                assert(out@ =~= prev + (s@.subrange(i as int, i + 3) + "****"@ + s@.subrange(
                    i + 7,
                    i + 11,
                )));
                assert(out@ + mask_phone_from(s@, i + 11) =~= prev + mask_phone_from(
                    s@,
                    i as int,
                ));
            }
            i = i + 11;
        } else {
            let c = s.get_char(i);
            push_char(&mut out, c);
            proof {
                assert(mask_phone_from(s@, i as int) == seq![c] + mask_phone_from(s@, i + 1));
                assert(out@ + mask_phone_from(s@, i + 1) =~= prev + mask_phone_from(
                    s@,
                    i as int,
                ));
            }
            i = i + 1;
        }
    }
    proof {
        assert(mask_phone_from(s@, i as int).len() == 0);
        assert(out@ =~= mask_phone_from(s@, 0));
    }
    out
}

/// The number of consecutive digits at `i`.
pub open spec fn digit_run(s: Seq<char>, i: int) -> int
    decreases s.len() - i,
{
    if i < 0 || i >= s.len() || !is_digit(s[i]) {
        0
    } else {
        1 + digit_run(s, i + 1)
    }
}

proof fn lemma_digit_run_bounds(s: Seq<char>, i: int)
    requires
        0 <= i <= s.len(),
    ensures
        0 <= digit_run(s, i) <= s.len() - i,
    decreases s.len() - i,
{
    if i < s.len() && is_digit(s[i]) {
        lemma_digit_run_bounds(s, i + 1);
    }
}

/// A run of digits that stops at `j` is exactly `j - a` long.
proof fn lemma_digit_run_exact(s: Seq<char>, a: int, j: int)
    requires
        0 <= a <= j <= s.len(),
        forall|m: int| a <= m < j ==> is_digit(#[trigger] s[m]),
        j == s.len() || !is_digit(s[j]),
    ensures
        digit_run(s, a) == j - a,
    decreases j - a,
{
    if a < j {
        lemma_digit_run_exact(s, a + 1, j);
    }
}

/// One to three digits followed by a dot start at `i`: one group of a
/// dotted address, with the dot.
pub open spec fn octet_dot_at(s: Seq<char>, i: int) -> bool {
    let r = digit_run(s, i);
    0 <= i && 1 <= r <= 3 && i + r < s.len() && s[i + r] == '.'
}

/// The length of the dotted-address match at `i`, or zero: three groups of
/// one to three digits each followed by a dot, then one final group of at
/// least one digit, of which the first three are taken.
pub open spec fn ip_match_len(s: Seq<char>, i: int) -> int {
    if octet_dot_at(s, i) && octet_dot_at(s, i + digit_run(s, i) + 1) && octet_dot_at(
        s,
        i + digit_run(s, i) + 1 + digit_run(s, i + digit_run(s, i) + 1) + 1,
    ) {
        let p4 = i + digit_run(s, i) + 1 + digit_run(s, i + digit_run(s, i) + 1) + 1 + digit_run(
            s,
            i + digit_run(s, i) + 1 + digit_run(s, i + digit_run(s, i) + 1) + 1,
        ) + 1;
        let r4 = digit_run(s, p4);
        if r4 >= 1 {
            p4 + (if r4 <= 3 {
                r4
            } else {
                3
            }) - i
        } else {
            0
        }
    } else {
        0
    }
}

/// What the dotted-address match at `i` is replaced with: the first group,
/// two starred groups, and the last group.
pub open spec fn ip_replacement(s: Seq<char>, i: int) -> Seq<char> {
    let r1 = digit_run(s, i);
    s.subrange(i, i + r1) + ".***.***."@ + s.subrange(
        i + ip_match_len(s, i) - ip_last_run(s, i),
        i + ip_match_len(s, i),
    )
}

/// How many digits the final group of the match at `i` keeps.
pub open spec fn ip_last_run(s: Seq<char>, i: int) -> int {
    let p4 = i + digit_run(s, i) + 1 + digit_run(s, i + digit_run(s, i) + 1) + 1 + digit_run(
        s,
        i + digit_run(s, i) + 1 + digit_run(s, i + digit_run(s, i) + 1) + 1,
    ) + 1;
    let r4 = digit_run(s, p4);
    if r4 <= 3 {
        r4
    } else {
        3
    }
}

/// `s` from `i` on with every dotted address's middle groups starred.
pub open spec fn mask_ip_from(s: Seq<char>, i: int) -> Seq<char>
    decreases s.len() - i
        via mask_ip_from_dec
{
    if i < 0 || i >= s.len() {
        Seq::empty()
    } else if ip_match_len(s, i) > 0 {
        ip_replacement(s, i) + mask_ip_from(s, i + ip_match_len(s, i))
    } else {
        seq![s[i]] + mask_ip_from(s, i + 1)
    }
}

#[via_fn]
proof fn mask_ip_from_dec(s: Seq<char>, i: int) {
    if 0 <= i < s.len() && ip_match_len(s, i) > 0 {
        lemma_ip_match_len_bounds(s, i);
    }
}

proof fn lemma_ip_match_len_bounds(s: Seq<char>, i: int)
    requires
        0 <= i < s.len(),
        ip_match_len(s, i) > 0,
    ensures
        1 <= ip_match_len(s, i) <= s.len() - i,
{
    let r1 = digit_run(s, i);
    lemma_digit_run_bounds(s, i);
    let p2 = i + r1 + 1;
    lemma_digit_run_bounds(s, p2);
    let r2 = digit_run(s, p2);
    let p3 = p2 + r2 + 1;
    lemma_digit_run_bounds(s, p3);
    let r3 = digit_run(s, p3);
    let p4 = p3 + r3 + 1;
    lemma_digit_run_bounds(s, p4);
}

/// Whether the character at `j` is a decimal digit.
fn digit_at(s: &str, j: usize) -> (r: bool)
    requires
        j < s@.len(),
    ensures
        r == is_digit(s@[j as int]),
{
    let code = s.get_char(j) as u32;
    48 <= code && code <= 57
}

/// The number of consecutive digits at `i`, executably.
fn digit_run_at(s: &str, i: usize) -> (r: usize)
    requires
        i <= s@.len(),
    ensures
        r == digit_run(s@, i as int),
        i + r <= s@.len(),
{
    let n = s.unicode_len();
    let mut j = i;
    while j < n && digit_at(s, j)
        invariant
            i <= j <= n == s@.len(),
            forall|m: int| i <= m < j ==> is_digit(#[trigger] s@[m]),
        decreases n - j,
    {
        j = j + 1;
    }
    proof {
        lemma_digit_run_exact(s@, i as int, j as int);
    }
    j - i
}

/// Stars the two middle groups of every dotted address in `s`.
pub fn mask_ip(s: &str) -> (r: String)
    ensures
        r@ == mask_ip_from(s@, 0),
{
    let n = s.unicode_len();
    let mut out = String::new();
    let mut i: usize = 0;
    while i < n
        invariant
            i <= n == s@.len(),
            out@ + mask_ip_from(s@, i as int) == mask_ip_from(s@, 0),
        decreases n - i,
    {
        let ghost prev = out@;
        let mut match_len: usize = 0;
        let r1 = digit_run_at(s, i);
        if 1 <= r1 && r1 <= 3 && i + r1 < n && s.get_char(i + r1) == '.' {
            let p2 = i + r1 + 1;
            let r2 = digit_run_at(s, p2);
            if 1 <= r2 && r2 <= 3 && p2 + r2 < n && s.get_char(p2 + r2) == '.' {
                let p3 = p2 + r2 + 1;
                let r3 = digit_run_at(s, p3);
                if 1 <= r3 && r3 <= 3 && p3 + r3 < n && s.get_char(p3 + r3) == '.' {
                    let p4 = p3 + r3 + 1;
                    let r4 = digit_run_at(s, p4);
                    if r4 >= 1 {
                        let keep = if r4 <= 3 {
                            r4
                        } else {
                            3
                        };
                        match_len = p4 + keep - i;
                        proof {
                            assert(octet_dot_at(s@, i as int));
                            assert(octet_dot_at(s@, p2 as int));
                            assert(octet_dot_at(s@, p3 as int));
                            assert(ip_match_len(s@, i as int) == match_len);
                            assert(ip_last_run(s@, i as int) == keep);
                        }
                        out.append(s.substring_char(i, i + r1));
                        out.append(".***.***.");
                        out.append(s.substring_char(p4, p4 + keep));
                        proof {
                            assert(out@ =~= prev + ip_replacement(s@, i as int));
                            assert(out@ + mask_ip_from(s@, i + match_len) =~= prev + mask_ip_from(
                                s@,
                                i as int,
                            ));
                        }
                    }
                }
            }
        }
        if match_len > 0 {
            i = i + match_len;
        } else {
            proof {
                assert(ip_match_len(s@, i as int) == 0);
            }
            let c = s.get_char(i);
            push_char(&mut out, c);
            proof {
                assert(mask_ip_from(s@, i as int) == seq![c] + mask_ip_from(s@, i + 1));
                assert(out@ + mask_ip_from(s@, i + 1) =~= prev + mask_ip_from(s@, i as int));
            }
            i = i + 1;
        }
    }
    proof {
        assert(mask_ip_from(s@, i as int).len() == 0);
        assert(out@ =~= mask_ip_from(s@, 0));
    }
    out
}

/// Removes what must not reach a log file: phone numbers first, then
/// dotted addresses.
pub fn desensitization(s: &str) -> (r: String)
    ensures
        r@ == mask_ip_from(mask_phone_from(s@, 0), 0),
{
    let phones_masked = mask_phone(s);
    mask_ip(phones_masked.as_str())
}

} // verus!
