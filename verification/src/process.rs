//! Matching running programs against the user's kill targets. Listing the
//! system's processes, resolving ports and sending signals are I/O and stay
//! outside the library; this is the matching itself.

use crate::grep::{contains_seq, contains_sub, lines_of, split_lines, views_of};
use crate::http::str_eq;
use crate::text::{decimal_digits, digits_val, is_valid_port, parse_u32, parses_as_u32};
use vstd::prelude::*;
use vstd::string::{StrSliceExecFns, StringExecFns};

verus! {

/// A process the matcher picked: its name, pid, and the queried port
/// (zero when it was matched by name).
#[derive(Debug, Clone)]
pub struct Program {
    pub name: String,
    pub pid: u32,
    pub port: u32,
}

/// One entry of the system's process table, as plain values.
#[derive(Debug, Clone)]
pub struct ProcessEntry {
    pub pid: u32,
    pub name: String,
}

/// The pid-and-name views of a program list.
pub open spec fn program_views(v: Seq<Program>) -> Seq<(u32, Seq<char>, u32)> {
    v.map_values(|p: Program| (p.pid, p.name@, p.port))
}

/// The pid-and-name views of a process-table slice.
pub open spec fn entry_views(v: Seq<ProcessEntry>) -> Seq<(u32, Seq<char>)> {
    v.map_values(|p: ProcessEntry| (p.pid, p.name@))
}

/// The name test for `query`, as a function over table entries.
pub open spec fn name_matches(query: Seq<char>) -> spec_fn((u32, Seq<char>)) -> bool {
    |e: (u32, Seq<char>)| contains_seq(e.1, query)
}

/// A matched entry widened to a kill candidate with port zero.
pub open spec fn as_candidate() -> spec_fn((u32, Seq<char>)) -> (u32, Seq<char>, u32) {
    |e: (u32, Seq<char>)| (e.0, e.1, 0u32)
}

/// The processes whose name contains `query`, as kill candidates with port
/// zero, in table order.
pub fn matched_by_name(all_process: &Vec<ProcessEntry>, query: &str) -> (r: Vec<Program>)
    ensures
        program_views(r@) == entry_views(all_process@).filter(name_matches(query@)).map_values(
            as_candidate(),
        ),
{
    broadcast use vstd::seq_lib::group_filter_ensures;

    let ghost pred = name_matches(query@);
    let ghost widen = as_candidate();
    let mut r: Vec<Program> = Vec::new();
    let mut k: usize = 0;
    while k < all_process.len()
        invariant
            k <= all_process@.len(),
            program_views(r@) == entry_views(all_process@).take(k as int).filter(
                pred,
            ).map_values(widen),
            pred == name_matches(query@),
            widen == as_candidate(),
        decreases all_process@.len() - k,
    {
        let entry = &all_process[k];
        proof {
            reveal(Seq::filter);
            assert(entry_views(all_process@).take(k + 1).drop_last() =~= entry_views(
                all_process@,
            ).take(k as int));
            assert(entry_views(all_process@).take(k + 1).last() == (entry.pid, entry.name@));
        }
        if contains_sub(entry.name.as_str(), query) {
            let ghost prev = program_views(r@);
            r.push(Program { name: entry.name.clone(), pid: entry.pid, port: 0 });
            proof {
                assert(program_views(r@) =~= prev.push((entry.pid, entry.name@, 0u32)));
                assert(program_views(r@) =~= entry_views(all_process@).take(k + 1).filter(
                    pred,
                ).map_values(widen));
            }
        } else {
            proof {
                assert(program_views(r@) =~= entry_views(all_process@).take(k + 1).filter(
                    pred,
                ).map_values(widen));
            }
        }
        k = k + 1;
    }
    proof {
        assert(entry_views(all_process@).take(all_process@.len() as int) =~= entry_views(
            all_process@,
        ));
    }
    r
}

/// The whitespace that separates columns in tool output.
pub open spec fn is_space(c: char) -> bool {
    c == ' ' || c == '\t' || c == '\r'
}

/// The first non-space position at or after `i`, or the line's end.
pub open spec fn skip_spaces(s: Seq<char>, i: int) -> int
    decreases s.len() - i,
{
    if i < 0 || i >= s.len() {
        s.len() as int
    } else if is_space(s[i]) {
        skip_spaces(s, i + 1)
    } else {
        i
    }
}

/// The first space at or after `i`, or the line's end.
pub open spec fn token_end(s: Seq<char>, i: int) -> int
    decreases s.len() - i,
{
    if i < 0 || i >= s.len() {
        s.len() as int
    } else if !is_space(s[i]) {
        token_end(s, i + 1)
    } else {
        i
    }
}

proof fn lemma_space_run(s: Seq<char>, a: int, j: int)
    requires
        0 <= a <= j <= s.len(),
        forall|m: int| a <= m < j ==> is_space(#[trigger] s[m]),
        j == s.len() || !is_space(s[j]),
    ensures
        skip_spaces(s, a) == j,
    decreases j - a,
{
    if a < j {
        lemma_space_run(s, a + 1, j);
    }
}

proof fn lemma_token_run(s: Seq<char>, a: int, j: int)
    requires
        0 <= a <= j <= s.len(),
        forall|m: int| a <= m < j ==> !is_space(#[trigger] s[m]),
        j == s.len() || is_space(s[j]),
    ensures
        token_end(s, a) == j,
    decreases j - a,
{
    if a < j {
        lemma_token_run(s, a + 1, j);
    }
}

/// The first two whitespace-separated columns of a table line, when the
/// line has at least two.
pub open spec fn first_two_columns(line: Seq<char>) -> Option<(Seq<char>, Seq<char>)> {
    let a0 = skip_spaces(line, 0);
    if a0 >= line.len() {
        None
    } else {
        let e0 = token_end(line, a0);
        let a1 = skip_spaces(line, e0);
        if a1 >= line.len() {
            None
        } else {
            Some((line.subrange(a0, e0), line.subrange(a1, token_end(line, a1))))
        }
    }
}

/// A listing line the reader below accepts: two columns, and a numeric pid
/// wherever one is parsed (the header names its columns and is skipped
/// before parsing).
pub open spec fn listing_line_ok(line: Seq<char>) -> bool {
    first_two_columns(line) matches Some((command, pid)) && (command == "COMMAND"@
        || parses_as_u32(pid))
}

pub open spec fn listing_ok(lines: Seq<Seq<char>>) -> bool {
    forall|k: int| 0 <= k < lines.len() ==> listing_line_ok(#[trigger] lines[k])
}

/// The programs a listing names: one per line, header line skipped, each
/// pid taken once (the first time its column text appears), carrying the
/// queried port.
pub open spec fn listing_programs(lines: Seq<Seq<char>>, seen: Seq<Seq<char>>, port: u32) -> Seq<
    (u32, Seq<char>, u32),
>
    decreases lines.len(),
{
    if lines.len() == 0 {
        Seq::empty()
    } else {
        let rest = lines.drop_first();
        match first_two_columns(lines[0]) {
            None => listing_programs(rest, seen, port),
            Some((command, pid)) => {
                if command == "COMMAND"@ || seen.contains(pid) {
                    listing_programs(rest, seen, port)
                } else {
                    seq![
                        ((digits_val(decimal_digits(pid)) as u32), command, port),
                    ] + listing_programs(rest, seen.push(pid), port)
                }
            }
        }
    }
}

fn space_at(s: &str, j: usize) -> (r: bool)
    requires
        j < s@.len(),
    ensures
        r == is_space(s@[j as int]),
{
    let c = s.get_char(j);
    c == ' ' || c == '\t' || c == '\r'
}

/// The position where the spaces starting at `i` end.
fn scan_spaces(s: &str, i: usize) -> (r: usize)
    requires
        i <= s@.len(),
    ensures
        r == skip_spaces(s@, i as int),
        i <= r <= s@.len(),
{
    let n = s.unicode_len();
    let mut j = i;
    while j < n && space_at(s, j)
        invariant
            i <= j <= n == s@.len(),
            forall|m: int| i <= m < j ==> is_space(#[trigger] s@[m]),
        decreases n - j,
    {
        j = j + 1;
    }
    proof {
        lemma_space_run(s@, i as int, j as int);
    }
    j
}

/// The position where the token starting at `i` ends.
fn scan_token(s: &str, i: usize) -> (r: usize)
    requires
        i <= s@.len(),
    ensures
        r == token_end(s@, i as int),
        i <= r <= s@.len(),
{
    let n = s.unicode_len();
    let mut j = i;
    while j < n && !space_at(s, j)
        invariant
            i <= j <= n == s@.len(),
            forall|m: int| i <= m < j ==> !is_space(#[trigger] s@[m]),
        decreases n - j,
    {
        j = j + 1;
    }
    proof {
        lemma_token_run(s@, i as int, j as int);
    }
    j
}

fn token_seen(seen: &Vec<String>, token: &str) -> (r: bool)
    ensures
        r == views_of(seen@).contains(token@),
{
    let mut k: usize = 0;
    while k < seen.len()
        invariant
            k <= seen@.len(),
            forall|m: int| 0 <= m < k ==> views_of(seen@)[m] != token@,
        decreases seen@.len() - k,
    {
        if str_eq(seen[k].as_str(), token) {
            proof {
                assert(views_of(seen@)[k as int] == token@);
            }
            return true;
        }
        k = k + 1;
    }
    proof {
        assert(forall|m: int| 0 <= m < views_of(seen@).len() ==> views_of(seen@)[m] != token@);
    }
    false
}

/// Reads a process listing keyed by a port — the shape `lsof -i :port`
/// prints — into kill candidates: the header dropped, one program per
/// distinct pid column. `None` when a line is missing its columns or
/// carries a pid that is no number.
pub fn parse_port_listing(output: &str, port: u32) -> (r: Option<Vec<Program>>)
    ensures
        r is Some <==> listing_ok(lines_of(output@)),
        r is Some ==> program_views((r->0)@) == listing_programs(
            lines_of(output@),
            Seq::empty(),
            port,
        ),
{
    let lines = split_lines(output);
    let mut programs: Vec<Program> = Vec::new();
    let mut seen: Vec<String> = Vec::new();
    let ghost all = lines_of(output@);
    proof {
        assert(all.skip(0) =~= all);
        assert(program_views(programs@) =~= Seq::<(u32, Seq<char>, u32)>::empty());
        assert(views_of(seen@) =~= Seq::<Seq<char>>::empty());
        assert(listing_programs(all, Seq::empty(), port) =~= program_views(programs@)
            + listing_programs(all.skip(0), views_of(seen@), port));
    }
    let mut k: usize = 0;
    while k < lines.len()
        invariant
            k <= lines@.len(),
            all == lines_of(output@),
            views_of(lines@) == all,
            forall|m: int| 0 <= m < k ==> listing_line_ok(#[trigger] all[m]),
            listing_programs(all, Seq::empty(), port) == program_views(programs@)
                + listing_programs(all.skip(k as int), views_of(seen@), port),
        decreases lines@.len() - k,
    {
        let line = &lines[k];
        let ghost rem = all.skip(k as int);
        proof {
            assert(rem[0] == all[k as int]);
            assert(rem.drop_first() =~= all.skip(k + 1));
        }
        let a0 = scan_spaces(line.as_str(), 0);
        let n = line.as_str().unicode_len();
        if a0 >= n {
            proof {
                assert(first_two_columns(all[k as int]) is None);
                assert(!listing_line_ok(all[k as int]));
                assert(!listing_ok(all));
            }
            return None;
        }
        let e0 = scan_token(line.as_str(), a0);
        let a1 = scan_spaces(line.as_str(), e0);
        if a1 >= n {
            proof {
                assert(first_two_columns(all[k as int]) is None);
                assert(!listing_line_ok(all[k as int]));
                assert(!listing_ok(all));
            }
            return None;
        }
        let e1 = scan_token(line.as_str(), a1);
        let command = line.as_str().substring_char(a0, e0);
        let pid_token = line.as_str().substring_char(a1, e1);
        proof {
            assert(first_two_columns(all[k as int]) == Some(
                (command@, pid_token@),
            ));
        }
        if str_eq(command, "COMMAND") {
            proof {
                assert(listing_line_ok(all[k as int]));
                assert(listing_programs(rem, views_of(seen@), port) == listing_programs(
                    rem.drop_first(),
                    views_of(seen@),
                    port,
                ));
            }
        } else if token_seen(&seen, pid_token) {
            proof {
                assert(parses_as_u32(pid_token@) || !parses_as_u32(pid_token@));
                assert(views_of(seen@).contains(pid_token@));
                assert(listing_programs(rem, views_of(seen@), port) == listing_programs(
                    rem.drop_first(),
                    views_of(seen@),
                    port,
                ));
            }
            if parse_u32(pid_token).is_none() {
                proof {
                    assert(!listing_line_ok(all[k as int]));
                    assert(!listing_ok(all));
                }
                return None;
            }
        } else {
            match parse_u32(pid_token) {
                None => {
                    proof {
                        assert(!parses_as_u32(pid_token@));
                        assert(!listing_line_ok(all[k as int]));
                        assert(!listing_ok(all));
                    }
                    return None;
                }
                Some(pid) => {
                    let ghost prev_programs = program_views(programs@);
                    let ghost prev_seen = views_of(seen@);
                    programs.push(
                        Program { name: command.to_owned(), pid, port },
                    );
                    seen.push(pid_token.to_owned());
                    proof {
                        assert(listing_programs(rem, prev_seen, port) == seq![
                            (pid, command@, port),
                        ] + listing_programs(rem.drop_first(), prev_seen.push(pid_token@), port));
                        assert(program_views(programs@) =~= prev_programs.push(
                            (pid, command@, port),
                        ));
                        assert(views_of(seen@) =~= prev_seen.push(pid_token@));
                        assert(program_views(programs@) + listing_programs(
                            all.skip(k + 1),
                            views_of(seen@),
                            port,
                        ) =~= prev_programs + listing_programs(rem, prev_seen, port));
                    }
                }
            }
        }
        proof {
            assert(program_views(programs@) + listing_programs(
                all.skip(k + 1),
                views_of(seen@),
                port,
            ) =~= listing_programs(all, Seq::empty(), port)) by {
                assert(rem.drop_first() =~= all.skip(k + 1));
            }
        }
        k = k + 1;
    }
    proof {
        assert(all.skip(k as int).len() == 0);
        assert(program_views(programs@) =~= listing_programs(all, Seq::empty(), port));
        assert(listing_ok(all));
    }
    Some(programs)
}

/// How one kill target is resolved.
pub enum KillStep {
    /// The target named a port: list what listens on it.
    LookUpPort { port: u32 },
    /// The target is a name fragment: match it against the process table.
    MatchByName { query: String },
}

/// A target counts as a port exactly when the port validator takes it.
pub open spec fn is_port_query(s: Seq<char>) -> bool {
    parses_as_u32(s) && digits_val(decimal_digits(s)) <= 65535
}

/// Resolves each kill target into the step that finds its processes:
/// numeric targets in port range are looked up by port, everything else is
/// matched by name. The runtime performs the steps (one asks the system
/// about a port, the other walks the process table) and kills what the
/// library matched.
pub fn kill_plan(name_or_ports: Vec<String>) -> (r: Vec<KillStep>)
    ensures
        r@.len() == name_or_ports@.len(),
        forall|i: int|
            0 <= i < r@.len() && is_port_query(name_or_ports@[i]@) ==> (#[trigger] r@[i]
                matches KillStep::LookUpPort { port } && port == digits_val(
                decimal_digits(name_or_ports@[i]@),
            ) as u32),
        forall|i: int|
            0 <= i < r@.len() && !is_port_query(name_or_ports@[i]@) ==> (#[trigger] r@[i]
                matches KillStep::MatchByName { query } && query@ == name_or_ports@[i]@),
{
    let mut r: Vec<KillStep> = Vec::new();
    let mut k: usize = 0;
    while k < name_or_ports.len()
        invariant
            k <= name_or_ports@.len(),
            r@.len() == k,
            forall|i: int|
                0 <= i < k && is_port_query(name_or_ports@[i]@) ==> (#[trigger] r@[i]
                    matches KillStep::LookUpPort { port } && port == digits_val(
                    decimal_digits(name_or_ports@[i]@),
                ) as u32),
            forall|i: int|
                0 <= i < k && !is_port_query(name_or_ports@[i]@) ==> (#[trigger] r@[i]
                    matches KillStep::MatchByName { query } && query@ == name_or_ports@[i]@),
        decreases name_or_ports@.len() - k,
    {
        let target = &name_or_ports[k];
        if is_valid_port(target.as_str()) {
            match parse_u32(target.as_str()) {
                Some(port) => {
                    r.push(KillStep::LookUpPort { port });
                }
                None => {
                    proof {
                        assert(false);
                    }
                }
            }
        } else {
            r.push(KillStep::MatchByName { query: target.clone() });
        }
        k = k + 1;
    }
    r
}

} // verus!
