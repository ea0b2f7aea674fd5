//! Text helpers for the command-line tools: subsequence matching for the
//! autocomplete, left padding, and port-string validation.

use crate::strutil::push_char;
use vstd::prelude::*;
use vstd::string::{StrSliceExecFns, StringSliceAdditionalSpecFns};

verus! {

/// `needle` appears in `hay` in order, not necessarily contiguously.
pub open spec fn is_subseq_of(needle: Seq<char>, hay: Seq<char>) -> bool
    decreases hay.len(),
{
    if needle.len() == 0 {
        true
    } else if hay.len() == 0 {
        false
    } else if needle[0] == hay[0] {
        is_subseq_of(needle.drop_first(), hay.drop_first())
    } else {
        is_subseq_of(needle, hay.drop_first())
    }
}

/// Whether `needle` can be read out of `haystack` left to right — with one
/// quirk: an empty `haystack` is accepted whatever the needle.
pub fn is_subsequence(haystack: &str, needle: &str) -> (r: bool)
    ensures
        r == (haystack@.len() == 0 || is_subseq_of(needle@, haystack@)),
{
    let hay_len = haystack.unicode_len();
    let needle_len = needle.unicode_len();
    if hay_len == 0 {
        return true;
    }
    let mut hi: usize = 0;
    let mut ni: usize = 0;
    proof {
        assert(needle@.skip(0) =~= needle@);
        assert(haystack@.skip(0) =~= haystack@);
    }
    while ni < needle_len
        invariant
            1 <= hay_len,
            hi <= hay_len == haystack@.len(),
            ni <= needle_len == needle@.len(),
            is_subseq_of(needle@, haystack@) == is_subseq_of(
                needle@.skip(ni as int),
                haystack@.skip(hi as int),
            ),
        ensures
            ni == needle_len,
            is_subseq_of(needle@, haystack@) == is_subseq_of(
                needle@.skip(ni as int),
                haystack@.skip(hi as int),
            ),
        decreases needle_len - ni,
    {
        let c = needle.get_char(ni);
        let mut found = false;
        while hi < hay_len && !found
            invariant
                1 <= hay_len,
                hi <= hay_len == haystack@.len(),
                ni < needle_len == needle@.len(),
                c == needle@[ni as int],
                found ==> is_subseq_of(needle@, haystack@) == is_subseq_of(
                    needle@.skip(ni + 1),
                    haystack@.skip(hi as int),
                ),
                !found ==> is_subseq_of(needle@, haystack@) == is_subseq_of(
                    needle@.skip(ni as int),
                    haystack@.skip(hi as int),
                ),
            decreases hay_len - hi + (if found {
                0int
            } else {
                1int
            }),
        {
            let h = haystack.get_char(hi);
            proof {
                assert(needle@.skip(ni as int).len() > 0);
                assert(needle@.skip(ni as int)[0] == c);
                assert(haystack@.skip(hi as int)[0] == h);
                assert(needle@.skip(ni as int).drop_first() =~= needle@.skip(ni + 1));
                assert(haystack@.skip(hi as int).drop_first() =~= haystack@.skip(hi + 1));
            }
            if h == c {
                found = true;
            }
            hi = hi + 1;
        }
        if !found {
            proof {
                assert(haystack@.skip(hi as int).len() == 0);
                assert(needle@.skip(ni as int).len() > 0);
                assert(!is_subseq_of(needle@.skip(ni as int), haystack@.skip(hi as int)));
            }
            return false;
        }
        ni = ni + 1;
    }
    proof {
        assert(needle@.skip(ni as int).len() == 0);
    }
    true
}

/// Pads `input` on the left with copies of `pad_char` until it is
/// `total_length` long, length counted as `str::len` counts it: in bytes,
/// with the subtraction saturating. An input at least `total_length` bytes
/// long is returned unchanged.
pub fn pad_left(input: &str, total_length: usize, pad_char: char) -> (r: String)
    ensures
        r@ == Seq::new(
            if total_length >= (input.spec_bytes().len() as usize) {
                (total_length - (input.spec_bytes().len() as usize)) as nat
            } else {
                0nat
            },
            |i: int| pad_char,
        ) + input@,
{
    let byte_len = input.len();
    let padding = if total_length >= byte_len {
        total_length - byte_len
    } else {
        0
    };
    let mut r = crate::strutil::repeat_char(pad_char, padding);
    r.append(input);
    proof {
        assert(r@ =~= Seq::new(
            if total_length >= (input.spec_bytes().len() as usize) {
                (total_length - (input.spec_bytes().len() as usize)) as nat
            } else {
                0nat
            },
            |i: int| pad_char,
        ) + input@);
    }
    r
}

pub open spec fn is_digit(c: char) -> bool {
    48 <= c as int <= 57
}

pub open spec fn digit_val(c: char) -> int {
    c as int - 48
}

pub open spec fn all_digits(s: Seq<char>) -> bool {
    forall|i: int| 0 <= i < s.len() ==> is_digit(#[trigger] s[i])
}

/// The number a digit string denotes, most significant digit first.
pub open spec fn digits_val(s: Seq<char>) -> int
    decreases s.len(),
{
    if s.len() == 0 {
        0
    } else {
        digits_val(s.drop_last()) * 10 + digit_val(s.last())
    }
}

/// The digit part of an unsigned decimal literal: everything after an
/// optional leading `+`.
pub open spec fn decimal_digits(s: Seq<char>) -> Seq<char> {
    if s.len() > 0 && s[0] == '+' {
        s.drop_first()
    } else {
        s
    }
}

/// The strings `str::parse::<u32>` accepts: an optional `+`, then one or
/// more digits, denoting a value that fits in a `u32`.
pub open spec fn parses_as_u32(s: Seq<char>) -> bool {
    let d = decimal_digits(s);
    d.len() > 0 && all_digits(d) && digits_val(d) <= u32::MAX
}

proof fn lemma_digits_val_nonneg(s: Seq<char>)
    requires
        all_digits(s),
    ensures
        digits_val(s) >= 0,
    decreases s.len(),
{
    if s.len() > 0 {
        assert(all_digits(s.drop_last()));
        lemma_digits_val_nonneg(s.drop_last());
        assert(is_digit(s.last()));
    }
}

/// A string names a usable port when it parses as a `u32` no larger than
/// 65535.
pub fn is_valid_port(port_str: &str) -> (r: bool)
    ensures
        r == (parses_as_u32(port_str@) && digits_val(decimal_digits(port_str@)) <= 65535),
{
    let n = port_str.unicode_len();
    let start: usize = if n > 0 && port_str.get_char(0) == '+' {
        1
    } else {
        0
    };
    proof {
        if start == 1 {
            assert(decimal_digits(port_str@) =~= port_str@.skip(1));
        } else {
            assert(decimal_digits(port_str@) =~= port_str@.skip(0));
        }
    }
    let ghost digits = decimal_digits(port_str@);
    if n == start {
        proof {
            assert(digits.len() == 0);
        }
        return false;
    }
    let mut val: u64 = 0;
    let mut overflow = false;
    let mut i: usize = start;
    while i < n
        invariant
            start <= i <= n == port_str@.len(),
            start <= 1,
            digits == decimal_digits(port_str@),
            digits == port_str@.skip(start as int),
            all_digits(digits.take(i - start)),
            !overflow ==> val == digits_val(digits.take(i - start)) && val <= u32::MAX,
            overflow ==> digits_val(digits.take(i - start)) > u32::MAX,
        decreases n - i,
    {
        let c = port_str.get_char(i);
        let code = c as u32;
        if code < 48 || code > 57 {
            proof {
                assert(digits[i - start] == c);
                assert(!is_digit(c));
                assert(!all_digits(digits));
                assert(!parses_as_u32(port_str@));
            }
            return false;
        }
        proof {
            assert(digits.take(i + 1 - start).drop_last() =~= digits.take(i - start));
            assert(digits.take(i + 1 - start).last() == digits[i - start] == c);
            if overflow {
                lemma_digits_val_nonneg(digits.take(i - start));
            }
        }
        if !overflow {
            val = val * 10 + (code - 48) as u64;
            if val > 0xffff_ffff {
                overflow = true;
            }
        }
        i = i + 1;
    }
    proof {
        assert(digits.take(i - start) =~= digits);
    }
    if overflow {
        false
    } else {
        val <= 65535
    }
}

/// The escape that the highlighter puts around a matched character: red
/// underline on, the character, attributes off.
pub open spec fn highlight_wrap(c: char) -> Seq<char> {
    "\x1b[4m\x1b[31m"@ + seq![c] + "\x1b[0m\x1b[0m"@
}

/// What highlighting leaves of `hay` against the not-yet-consumed part of
/// the needle: a character found anywhere in the remaining needle is
/// wrapped, and the needle then loses its front character — one step of the
/// needle per match, whichever character matched.
pub open spec fn highlight_spec(hay: Seq<char>, needle: Seq<char>) -> Seq<char>
    decreases hay.len(),
{
    if hay.len() == 0 {
        Seq::empty()
    } else if needle.contains(hay[0]) {
        highlight_wrap(hay[0]) + highlight_spec(hay.drop_first(), needle.drop_first())
    } else {
        seq![hay[0]] + highlight_spec(hay.drop_first(), needle)
    }
}

fn sgr_param_at(s: &str, j: usize) -> (r: bool)
    requires
        j < s@.len(),
    ensures
        r == is_sgr_param(s@[j as int]),
{
    let p = s.get_char(j) as u32;
    (48 <= p && p <= 57) || p == 59
}

/// Whether `ch` occurs in `needle` at or after position `from`.
fn char_in_suffix(needle: &str, from: usize, ch: char) -> (r: bool)
    requires
        from <= needle@.len(),
    ensures
        r == needle@.skip(from as int).contains(ch),
{
    let n = needle.unicode_len();
    let mut j = from;
    while j < n
        invariant
            from <= j <= n == needle@.len(),
            forall|m: int| from <= m < j ==> needle@[m] != ch,
        decreases n - j,
    {
        if needle.get_char(j) == ch {
            proof {
                assert(needle@.skip(from as int)[j - from] == ch);
            }
            return true;
        }
        j = j + 1;
    }
    proof {
        assert forall|m: int|
            0 <= m < needle@.skip(from as int).len() implies needle@.skip(from as int)[m]
            != ch by {
            assert(needle@.skip(from as int)[m] == needle@[m + from]);
        }
    }
    false
}

/// Rebuilds `haystack` with every character that the subsequence matcher
/// would take wrapped in a red underline escape.
pub fn highlight_subsequence(haystack: &str, needle: &str) -> (r: String)
    ensures
        r@ == highlight_spec(haystack@, needle@),
{
    let n = haystack.unicode_len();
    let needle_len = needle.unicode_len();
    let mut result = String::new();
    let mut i: usize = 0;
    let mut nj: usize = 0;
    proof {
        assert(haystack@.skip(0) =~= haystack@);
        assert(needle@.skip(0) =~= needle@);
    }
    while i < n
        invariant
            i <= n == haystack@.len(),
            nj <= needle_len == needle@.len(),
            result@ + highlight_spec(haystack@.skip(i as int), needle@.skip(nj as int))
                == highlight_spec(haystack@, needle@),
        decreases n - i,
    {
        let ch = haystack.get_char(i);
        let ghost prev = result@;
        proof {
            assert(haystack@.skip(i as int)[0] == ch);
            assert(haystack@.skip(i as int).drop_first() =~= haystack@.skip(i + 1));
        }
        if char_in_suffix(needle, nj, ch) {
            proof {
                assert(needle@.skip(nj as int).len() > 0);
                assert(needle@.skip(nj as int).drop_first() =~= needle@.skip(nj + 1));
            }
            result.append("\x1b[4m\x1b[31m");
            push_char(&mut result, ch);
            result.append("\x1b[0m\x1b[0m");
            proof {
                assert(result@ =~= prev + highlight_wrap(ch));
                assert(highlight_spec(haystack@.skip(i as int), needle@.skip(nj as int))
                    == highlight_wrap(ch) + highlight_spec(
                    haystack@.skip(i + 1),
                    needle@.skip(nj + 1),
                ));
                assert(result@ + highlight_spec(haystack@.skip(i + 1), needle@.skip(nj + 1))
                    =~= prev + highlight_spec(haystack@.skip(i as int), needle@.skip(nj as int)));
            }
            nj = nj + 1;
        } else {
            push_char(&mut result, ch);
            proof {
                assert(result@ =~= prev + seq![ch]);
                assert(highlight_spec(haystack@.skip(i as int), needle@.skip(nj as int))
                    == seq![ch] + highlight_spec(haystack@.skip(i + 1), needle@.skip(nj as int)));
                assert(result@ + highlight_spec(haystack@.skip(i + 1), needle@.skip(nj as int))
                    =~= prev + highlight_spec(haystack@.skip(i as int), needle@.skip(nj as int)));
            }
        }
        i = i + 1;
    }
    proof {
        assert(haystack@.skip(n as int).len() == 0);
        assert(result@ =~= highlight_spec(haystack@, needle@));
    }
    result
}

pub open spec fn is_sgr_param(c: char) -> bool {
    is_digit(c) || c == ';'
}

/// The first position at or after `i` holding something other than a digit
/// or `;`, or the string's end.
pub open spec fn params_end(s: Seq<char>, i: int) -> int
    decreases s.len() - i,
{
    if i < 0 || i >= s.len() {
        s.len() as int
    } else if is_sgr_param(s[i]) {
        params_end(s, i + 1)
    } else {
        i
    }
}

proof fn lemma_params_end_bounds(s: Seq<char>, i: int)
    requires
        0 <= i <= s.len(),
    ensures
        i <= params_end(s, i) <= s.len(),
    decreases s.len() - i,
{
    if i < s.len() && is_sgr_param(s[i]) {
        lemma_params_end_bounds(s, i + 1);
    }
}

/// Scanning a run of parameter characters that stops at `j` lands exactly
/// on `j`.
proof fn lemma_params_end_run(s: Seq<char>, a: int, j: int)
    requires
        0 <= a <= j <= s.len(),
        forall|m: int| a <= m < j ==> is_sgr_param(#[trigger] s[m]),
        j == s.len() || !is_sgr_param(s[j]),
    ensures
        params_end(s, a) == j,
    decreases j - a,
{
    if a < j {
        lemma_params_end_run(s, a + 1, j);
    }
}

/// The length of the color escape starting at `i` — `ESC [`, any run of
/// digits and `;`, then `m` — or zero when none starts there.
pub open spec fn sgr_len(s: Seq<char>, i: int) -> int {
    if 0 <= i && i + 2 <= s.len() && s[i] == '\x1b' && s[i + 1] == '[' {
        let e = params_end(s, i + 2);
        if e < s.len() && s[e] == 'm' {
            e + 1 - i
        } else {
            0
        }
    } else {
        0
    }
}

/// `s` from position `i` on, with every color escape removed, leftmost
/// match first, never overlapping.
pub open spec fn strip_ansi(s: Seq<char>, i: int) -> Seq<char>
    decreases s.len() - i
        via strip_ansi_dec
{
    if i < 0 || i >= s.len() {
        Seq::empty()
    } else if sgr_len(s, i) > 0 {
        strip_ansi(s, i + sgr_len(s, i))
    } else {
        seq![s[i]] + strip_ansi(s, i + 1)
    }
}

#[via_fn]
proof fn strip_ansi_dec(s: Seq<char>, i: int) {
    if 0 <= i < s.len() && sgr_len(s, i) > 0 {
        lemma_params_end_bounds(s, i + 2);
    }
}


proof fn lemma_params_end_shift(x: Seq<char>, y: Seq<char>, k: int)
    requires
        0 <= k <= y.len(),
    ensures
        params_end(x + y, x.len() + k) == x.len() + params_end(y, k),
    decreases y.len() - k,
{
    let s = x + y;
    if k < y.len() {
        assert(s[x.len() + k] == y[k]);
        if is_sgr_param(y[k]) {
            lemma_params_end_shift(x, y, k + 1);
        }
    }
}

proof fn lemma_sgr_len_shift(x: Seq<char>, y: Seq<char>, k: int)
    requires
        0 <= k <= y.len(),
    ensures
        sgr_len(x + y, x.len() + k) == sgr_len(y, k),
{
    let s = x + y;
    if k + 2 <= y.len() {
        assert(s[x.len() + k] == y[k]);
        assert(s[x.len() + k + 1] == y[k + 1]);
        if y[k] == '\x1b' && y[k + 1] == '[' {
            lemma_params_end_shift(x, y, k + 2);
            let e = params_end(y, k + 2);
            lemma_params_end_bounds(y, k + 2);
            if e < y.len() {
                assert(s[x.len() + e] == y[e]);
            }
        }
    }
}

proof fn lemma_strip_ansi_shift(x: Seq<char>, y: Seq<char>, k: int)
    requires
        0 <= k <= y.len(),
    ensures
        strip_ansi(x + y, x.len() + k) == strip_ansi(y, k),
    decreases y.len() - k,
{
    let s = x + y;
    if k < y.len() {
        assert(s[x.len() + k] == y[k]);
        lemma_sgr_len_shift(x, y, k);
        if sgr_len(y, k) > 0 {
            assert(k + 2 <= y.len() && y[k] == '\x1b' && y[k + 1] == '[');
            lemma_params_end_bounds(y, k + 2);
            lemma_strip_ansi_shift(x, y, k + sgr_len(y, k));
        } else {
            lemma_strip_ansi_shift(x, y, k + 1);
        }
    }
}

/// Strips the color escapes that `highlight_subsequence` adds (and any
/// other `ESC [ ... m` sequence) out of `s`.
pub fn remove_ansi_escape_codes(s: &str) -> (r: String)
    ensures
        r@ == strip_ansi(s@, 0),
{
    let n = s.unicode_len();
    let mut out = String::new();
    let mut i: usize = 0;
    while i < n
        invariant
            i <= n == s@.len(),
            out@ + strip_ansi(s@, i as int) == strip_ansi(s@, 0),
        decreases n - i,
    {
        let ghost prev = out@;
        let c = s.get_char(i);
        let mut matched_end: usize = 0;
        let mut matched = false;
        if c == '\x1b' && i + 1 < n && s.get_char(i + 1) == '[' {
            let mut j = i + 2;
            while j < n && sgr_param_at(s, j)
                invariant
                    i + 2 <= j <= n == s@.len(),
                    forall|m: int| i + 2 <= m < j ==> is_sgr_param(#[trigger] s@[m]),
                decreases n - j,
            {
                j = j + 1;
            }
            proof {
                lemma_params_end_run(s@, i + 2, j as int);
            }
            if j < n && s.get_char(j) == 'm' {
                matched = true;
                matched_end = j + 1;
                proof {
                    assert(sgr_len(s@, i as int) == j + 1 - i);
                }
            } else {
                proof {
                    assert(sgr_len(s@, i as int) == 0);
                }
            }
        }
        if matched {
            proof {
                assert(strip_ansi(s@, i as int) == strip_ansi(s@, matched_end as int));
            }
            i = matched_end;
        } else {
            proof {
                if !(c == '\x1b' && i + 1 < n && s@[i + 1] == '[') {
                    assert(sgr_len(s@, i as int) == 0);
                }
                assert(strip_ansi(s@, i as int) == seq![c] + strip_ansi(s@, i + 1));
            }
            push_char(&mut out, c);
            proof {
                assert(out@ + strip_ansi(s@, i + 1) =~= prev + strip_ansi(s@, i as int));
            }
            i = i + 1;
        }
    }
    proof {
        assert(strip_ansi(s@, i as int).len() == 0);
        assert(out@ =~= strip_ansi(s@, 0));
    }
    out
}


/// One highlighted character strips back to itself: the two escapes around
/// it are removed and the character stays.
proof fn lemma_strip_wrap(c: char, tail: Seq<char>)
    requires
        c != '\x1b',
    ensures
        strip_ansi(highlight_wrap(c) + tail, 0) == seq![c] + strip_ansi(tail, 0),
{
    reveal_strlit("\x1b[4m\x1b[31m");
    reveal_strlit("\x1b[0m\x1b[0m");
    let w = highlight_wrap(c);
    let s = w + tail;
    assert(w.len() == 18);
    assert(s[0] == '\x1b' && s[1] == '[' && s[2] == '4' && s[3] == 'm');
    assert(s[4] == '\x1b' && s[5] == '[' && s[6] == '3' && s[7] == '1' && s[8] == 'm');
    assert(s[9] == c);
    assert(s[10] == '\x1b' && s[11] == '[' && s[12] == '0' && s[13] == 'm');
    assert(s[14] == '\x1b' && s[15] == '[' && s[16] == '0' && s[17] == 'm');

    assert(params_end(s, 2) == 3) by {
        lemma_params_end_run(s, 2, 3);
    }
    assert(sgr_len(s, 0) == 4);
    assert(strip_ansi(s, 0) == strip_ansi(s, 4));

    assert(params_end(s, 6) == 8) by {
        lemma_params_end_run(s, 6, 8);
    }
    assert(sgr_len(s, 4) == 5);
    assert(strip_ansi(s, 4) == strip_ansi(s, 9));

    assert(sgr_len(s, 9) == 0);
    assert(strip_ansi(s, 9) == seq![c] + strip_ansi(s, 10));

    assert(params_end(s, 12) == 13) by {
        lemma_params_end_run(s, 12, 13);
    }
    assert(sgr_len(s, 10) == 4);
    assert(strip_ansi(s, 10) == strip_ansi(s, 14));

    assert(params_end(s, 16) == 17) by {
        lemma_params_end_run(s, 16, 17);
    }
    assert(sgr_len(s, 14) == 4);
    assert(strip_ansi(s, 14) == strip_ansi(s, 18));

    assert(strip_ansi(s, 18) == strip_ansi(tail, 0)) by {
        lemma_strip_ansi_shift(w, tail, 0);
    }
}

/// Highlighting round-trips: stripping the escapes out of a highlighted
/// text gives the text back, as long as the text itself carries no escape
/// character.
pub proof fn lemma_highlight_round_trip(hay: Seq<char>, needle: Seq<char>)
    requires
        forall|i: int| 0 <= i < hay.len() ==> #[trigger] hay[i] != '\x1b',
    ensures
        strip_ansi(highlight_spec(hay, needle), 0) == hay,
    decreases hay.len(),
{
    if hay.len() == 0 {
        assert(highlight_spec(hay, needle) == Seq::<char>::empty());
        assert(strip_ansi(highlight_spec(hay, needle), 0) =~= hay);
    } else {
        let c = hay[0];
        let rest = hay.drop_first();
        assert(forall|i: int| 0 <= i < rest.len() ==> #[trigger] rest[i] == hay[i + 1]);
        if needle.contains(c) {
            lemma_highlight_round_trip(rest, needle.drop_first());
            let tail = highlight_spec(rest, needle.drop_first());
            assert(highlight_spec(hay, needle) == highlight_wrap(c) + tail);
            lemma_strip_wrap(c, tail);
            assert(seq![c] + rest =~= hay);
        } else {
            lemma_highlight_round_trip(rest, needle);
            let tail = highlight_spec(rest, needle);
            assert(highlight_spec(hay, needle) == seq![c] + tail);
            let s = seq![c] + tail;
            assert(s[0] == c);
            assert(sgr_len(s, 0) == 0);
            assert(strip_ansi(s, 0) == seq![c] + strip_ansi(s, 1));
            assert(strip_ansi(s, 1) == strip_ansi(tail, 0)) by {
                lemma_strip_ansi_shift(seq![c], tail, 0);
            }
            assert(seq![c] + rest =~= hay);
        }
    }
}

/// The number a string denotes, when `str::parse::<u32>` accepts it.
pub fn parse_u32(s: &str) -> (r: Option<u32>)
    ensures
        parses_as_u32(s@) ==> r == Some(digits_val(decimal_digits(s@)) as u32),
        !parses_as_u32(s@) ==> r is None,
{
    let n = s.unicode_len();
    let start: usize = if n > 0 && s.get_char(0) == '+' {
        1
    } else {
        0
    };
    proof {
        if start == 1 {
            assert(decimal_digits(s@) =~= s@.skip(1));
        } else {
            assert(decimal_digits(s@) =~= s@.skip(0));
        }
    }
    let ghost digits = decimal_digits(s@);
    if n == start {
        proof {
            assert(digits.len() == 0);
        }
        return None;
    }
    let mut val: u64 = 0;
    let mut overflow = false;
    let mut i: usize = start;
    while i < n
        invariant
            start <= i <= n == s@.len(),
            start <= 1,
            digits == decimal_digits(s@),
            digits == s@.skip(start as int),
            all_digits(digits.take(i - start)),
            !overflow ==> val == digits_val(digits.take(i - start)) && val <= u32::MAX,
            overflow ==> digits_val(digits.take(i - start)) > u32::MAX,
        decreases n - i,
    {
        let c = s.get_char(i);
        let code = c as u32;
        if code < 48 || code > 57 {
            proof {
                assert(digits[i - start] == c);
                assert(!is_digit(c));
                assert(!all_digits(digits));
                assert(!parses_as_u32(s@));
            }
            return None;
        }
        proof {
            assert(digits.take(i + 1 - start).drop_last() =~= digits.take(i - start));
            assert(digits.take(i + 1 - start).last() == digits[i - start] == c);
            if overflow {
                lemma_digits_val_nonneg(digits.take(i - start));
            }
        }
        if !overflow {
            val = val * 10 + (code - 48) as u64;
            if val > 0xffff_ffff {
                overflow = true;
            }
        }
        i = i + 1;
    }
    proof {
        assert(digits.take(i - start) =~= digits);
    }
    if overflow {
        None
    } else {
        proof {
            lemma_digits_val_nonneg(digits);
        }
        Some(val as u32)
    }
}

} // verus!
