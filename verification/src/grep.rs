//! The little grep: configuration parsing, line splitting, substring
//! search, and its case-insensitive variant.

use crate::strutil::{lower_of, lowercase};
use vstd::prelude::*;
use vstd::seq_lib::group_filter_ensures;
use vstd::string::StrSliceExecFns;

verus! {

/// `needle` occurs verbatim in `hay` starting at `i`.
pub open spec fn is_match_at(hay: Seq<char>, needle: Seq<char>, i: int) -> bool {
    0 <= i && i + needle.len() <= hay.len() && hay.subrange(i, i + needle.len()) == needle
}

/// `needle` occurs somewhere in `hay`.
pub open spec fn contains_seq(hay: Seq<char>, needle: Seq<char>) -> bool {
    exists|i: int| is_match_at(hay, needle, i)
}

/// Substring test: whether `needle` occurs contiguously in `hay`.
pub fn contains_sub(hay: &str, needle: &str) -> (r: bool)
    ensures
        r == contains_seq(hay@, needle@),
{
    let hay_len = hay.unicode_len();
    let needle_len = needle.unicode_len();
    if needle_len > hay_len {
        proof {
            assert(forall|i: int| !is_match_at(hay@, needle@, i));
        }
        return false;
    }
    if needle_len == 0 {
        proof {
            assert(hay@.subrange(0, 0) =~= needle@);
            assert(is_match_at(hay@, needle@, 0));
        }
        return true;
    }
    let mut i: usize = 0;
    while i <= hay_len - needle_len
        invariant
            needle_len == needle@.len() <= hay_len == hay@.len(),
            1 <= needle_len,
            i <= hay_len - needle_len + 1,
            forall|m: int| 0 <= m < i ==> !is_match_at(hay@, needle@, m),
        decreases hay_len - i,
    {
        let mut j: usize = 0;
        let mut mismatch = false;
        while j < needle_len && !mismatch
            invariant
                needle_len == needle@.len() <= hay_len == hay@.len(),
                1 <= needle_len,
                i + needle_len <= hay_len,
                j <= needle_len,
                !mismatch ==> forall|m: int| 0 <= m < j ==> hay@[i + m] == needle@[m],
                mismatch ==> !is_match_at(hay@, needle@, i as int),
            decreases needle_len - j + (if mismatch {
                0int
            } else {
                1int
            }),
        {
            if hay.get_char(i + j) != needle.get_char(j) {
                proof {
                    assert(hay@.subrange(i as int, i + needle@.len())[j as int] == hay@[i + j]);
                }
                mismatch = true;
            }
            j = j + 1;
        }
        if !mismatch {
            proof {
                assert(hay@.subrange(i as int, i + needle@.len()) =~= needle@);
                assert(is_match_at(hay@, needle@, i as int));
            }
            return true;
        }
        i = i + 1;
    }
    proof {
        assert forall|m: int| !is_match_at(hay@, needle@, m) by {
            if m < 0 || m > hay@.len() - needle@.len() {
            } else {
                assert(!is_match_at(hay@, needle@, m));
            }
        }
    }
    false
}

/// A line terminator's worth of carriage return: a line that was ended by
/// `\r\n` loses the `\r`.
pub open spec fn strip_cr(l: Seq<char>) -> Seq<char> {
    if l.len() > 0 && l.last() == '\r' {
        l.drop_last()
    } else {
        l
    }
}

/// The position of the first `\n` at or after `i`, or the string's end.
pub open spec fn line_end(s: Seq<char>, i: int) -> int
    decreases s.len() - i,
{
    if i < 0 || i >= s.len() {
        s.len() as int
    } else if s[i] == '\n' {
        i
    } else {
        line_end(s, i + 1)
    }
}

proof fn lemma_line_end_bounds(s: Seq<char>, i: int)
    requires
        0 <= i <= s.len(),
    ensures
        i <= line_end(s, i) <= s.len(),
    decreases s.len() - i,
{
    if i < s.len() && s[i] != '\n' {
        lemma_line_end_bounds(s, i + 1);
    }
}

/// A run of non-newline characters that stops at `j` has its line end
/// exactly at `j`.
proof fn lemma_line_end_run(s: Seq<char>, a: int, j: int)
    requires
        0 <= a <= j <= s.len(),
        forall|m: int| a <= m < j ==> #[trigger] s[m] != '\n',
        j == s.len() || s[j] == '\n',
    ensures
        line_end(s, a) == j,
    decreases j - a,
{
    if a < j {
        lemma_line_end_run(s, a + 1, j);
    }
}

/// The lines of `s` from position `i` on, the way `str::lines` cuts them:
/// split at `\n`, a `\r` before the `\n` dropped, no empty line after a
/// final terminator.
pub open spec fn lines_from(s: Seq<char>, i: int) -> Seq<Seq<char>>
    decreases s.len() - i
        via lines_from_dec
{
    if i < 0 || i >= s.len() {
        Seq::empty()
    } else {
        let e = line_end(s, i);
        if e < s.len() {
            seq![strip_cr(s.subrange(i, e))] + lines_from(s, e + 1)
        } else {
            seq![s.subrange(i, e)]
        }
    }
}

#[via_fn]
proof fn lines_from_dec(s: Seq<char>, i: int) {
    if 0 <= i < s.len() {
        lemma_line_end_bounds(s, i);
    }
}

/// The lines of `s`.
pub open spec fn lines_of(s: Seq<char>) -> Seq<Seq<char>> {
    lines_from(s, 0)
}

/// The views of the strings in `v`.
pub open spec fn views_of(v: Seq<String>) -> Seq<Seq<char>> {
    v.map_values(|l: String| l@)
}

/// The verbatim-match test for `query`, as a function over lines.
pub open spec fn line_matches(query: Seq<char>) -> spec_fn(Seq<char>) -> bool {
    |l: Seq<char>| contains_seq(l, query)
}

/// The case-folded match test for `query`, as a function over lines.
pub open spec fn line_matches_folded(query: Seq<char>) -> spec_fn(Seq<char>) -> bool {
    |l: Seq<char>| contains_seq(lower_of(l), lower_of(query))
}

/// Cuts `contents` into its lines.
pub fn split_lines(contents: &str) -> (r: Vec<String>)
    ensures
        views_of(r@) == lines_of(contents@),
{
    let n = contents.unicode_len();
    let mut r: Vec<String> = Vec::new();
    let mut start: usize = 0;
    let mut i: usize = 0;
    while i < n
        invariant
            start <= i <= n == contents@.len(),
            forall|m: int| start <= m < i ==> #[trigger] contents@[m] != '\n',
            views_of(r@) + lines_from(contents@, start as int) == lines_of(contents@),
        decreases n - i,
    {
        let c = contents.get_char(i);
        if c == '\n' {
            proof {
                lemma_line_end_run(contents@, start as int, i as int);
            }
            let end = if i > start && contents.get_char(i - 1) == '\r' {
                i - 1
            } else {
                i
            };
            proof {
                assert(contents@.subrange(start as int, end as int) =~= strip_cr(
                    contents@.subrange(start as int, i as int),
                ));
            }
            let line = contents.substring_char(start, end);
            let ghost prev_views = views_of(r@);
            r.push(line.to_owned());
            proof {
                assert(views_of(r@) =~= prev_views.push(line@));
                assert(views_of(r@) + lines_from(contents@, i + 1) =~= prev_views + lines_from(
                    contents@,
                    start as int,
                ));
            }
            start = i + 1;
        }
        i = i + 1;
    }
    if start < n {
        proof {
            lemma_line_end_run(contents@, start as int, n as int);
        }
        let line = contents.substring_char(start, n);
        let ghost prev_views = views_of(r@);
        r.push(line.to_owned());
        proof {
            assert(lines_from(contents@, start as int) =~= seq![
                contents@.subrange(start as int, n as int),
            ]);
            assert(views_of(r@) =~= prev_views.push(line@));
            assert(views_of(r@) =~= lines_of(contents@));
        }
    } else {
        proof {
            assert(lines_from(contents@, start as int).len() == 0);
            assert(views_of(r@) =~= lines_of(contents@));
        }
    }
    r
}

/// The lines of `contents` that contain `query` verbatim, in order.
pub fn search(query: String, contents: &str) -> (r: Vec<String>)
    ensures
        views_of(r@) == lines_of(contents@).filter(line_matches(query@)),
{
    broadcast use group_filter_ensures;

    let lines = split_lines(contents);
    let ghost pred = line_matches(query@);
    let mut r: Vec<String> = Vec::new();
    let mut k: usize = 0;
    while k < lines.len()
        invariant
            k <= lines@.len(),
            views_of(lines@) == lines_of(contents@),
            views_of(r@) == views_of(lines@).take(k as int).filter(pred),
            pred == line_matches(query@),
        decreases lines@.len() - k,
    {
        let line = &lines[k];
        proof {
            reveal(Seq::filter);
            assert(views_of(lines@).take(k + 1).drop_last() =~= views_of(lines@).take(k as int));
            assert(views_of(lines@).take(k + 1).last() == lines@[k as int]@);
        }
        if contains_sub(line.as_str(), query.as_str()) {
            let ghost prev_views = views_of(r@);
            r.push(line.clone());
            proof {
                assert(views_of(r@) =~= prev_views.push(lines@[k as int]@));
                assert(views_of(r@) =~= views_of(lines@).take(k + 1).filter(pred));
            }
        } else {
            proof {
                assert(views_of(r@) =~= views_of(lines@).take(k + 1).filter(pred));
            }
        }
        k = k + 1;
    }
    proof {
        assert(views_of(lines@).take(lines@.len() as int) =~= views_of(lines@));
    }
    r
}

/// The lines of `contents` that contain `query` once both are lowercased.
pub fn search_case_insensitive(query: String, contents: &str) -> (r: Vec<String>)
    ensures
        views_of(r@) == lines_of(contents@).filter(line_matches_folded(query@)),
{
    broadcast use group_filter_ensures;

    let lines = split_lines(contents);
    let query_lower = lowercase(query.as_str());
    let ghost pred = line_matches_folded(query@);
    let mut r: Vec<String> = Vec::new();
    let mut k: usize = 0;
    while k < lines.len()
        invariant
            k <= lines@.len(),
            views_of(lines@) == lines_of(contents@),
            query_lower@ == lower_of(query@),
            views_of(r@) == views_of(lines@).take(k as int).filter(pred),
            pred == line_matches_folded(query@),
        decreases lines@.len() - k,
    {
        let line = &lines[k];
        let line_lower = lowercase(line.as_str());
        proof {
            reveal(Seq::filter);
            assert(views_of(lines@).take(k + 1).drop_last() =~= views_of(lines@).take(k as int));
            assert(views_of(lines@).take(k + 1).last() == lines@[k as int]@);
        }
        if contains_sub(line_lower.as_str(), query_lower.as_str()) {
            let ghost prev_views = views_of(r@);
            r.push(line.clone());
            proof {
                assert(views_of(r@) =~= prev_views.push(lines@[k as int]@));
                assert(views_of(r@) =~= views_of(lines@).take(k + 1).filter(pred));
            }
        } else {
            proof {
                assert(views_of(r@) =~= views_of(lines@).take(k + 1).filter(pred));
            }
        }
        k = k + 1;
    }
    proof {
        assert(views_of(lines@).take(lines@.len() as int) =~= views_of(lines@));
    }
    r
}

/// How a grep run is configured: what to look for, where, and whether case
/// is ignored.
pub struct Config {
    pub query: String,
    pub file_path: String,
    pub ignore_case: bool,
}

impl Config {
    /// Builds a configuration from the command line's arguments (the first
    /// entry is the program name and is skipped) and the case flag the
    /// environment supplied.
    pub fn build(args: Vec<String>, ignore_case: bool) -> (r: Result<Config, &'static str>)
        ensures
            args@.len() >= 3 ==> r is Ok && {
                let c = r->Ok_0;
                &&& c.query == args@[1]
                &&& c.file_path == args@[2]
                &&& c.ignore_case == ignore_case
            },
            args@.len() < 2 ==> r is Err && (r->Err_0)@ == "请输入query参数"@,
            args@.len() == 2 ==> r is Err && (r->Err_0)@ == "请输入路径参数"@,
    {
        if args.len() < 2 {
            return Err("请输入query参数");
        }
        if args.len() < 3 {
            return Err("请输入路径参数");
        }
        let query = args[1].clone();
        let file_path = args[2].clone();
        Ok(Config { query, file_path, ignore_case })
    }
}

} // verus!
