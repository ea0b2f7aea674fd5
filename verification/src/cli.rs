//! The command line's shape and the pure part of dispatching it: which
//! command was asked for, and what the runtime should do about it. Parsing
//! `argv` and running the actions stay outside the library.

use vstd::prelude::*;
use vstd::string::StrSliceExecFns;

verus! {

/// The position of the first `,` at or after `i`, or the string's end.
pub open spec fn comma_end(s: Seq<char>, i: int) -> int
    decreases s.len() - i,
{
    if i < 0 || i >= s.len() {
        s.len() as int
    } else if s[i] == ',' {
        i
    } else {
        comma_end(s, i + 1)
    }
}

proof fn lemma_comma_end_bounds(s: Seq<char>, i: int)
    requires
        0 <= i <= s.len(),
    ensures
        i <= comma_end(s, i) <= s.len(),
    decreases s.len() - i,
{
    if i < s.len() && s[i] != ',' {
        lemma_comma_end_bounds(s, i + 1);
    }
}

proof fn lemma_comma_end_run(s: Seq<char>, a: int, j: int)
    requires
        0 <= a <= j <= s.len(),
        forall|m: int| a <= m < j ==> #[trigger] s[m] != ',',
        j == s.len() || s[j] == ',',
    ensures
        comma_end(s, a) == j,
    decreases j - a,
{
    if a < j {
        lemma_comma_end_run(s, a + 1, j);
    }
}

/// The comma-separated pieces of `s` from `i` on, empty pieces kept, the
/// way `str::split(',')` cuts: one more piece than there are commas.
pub open spec fn split_commas_from(s: Seq<char>, i: int) -> Seq<Seq<char>>
    decreases s.len() - i
        via split_commas_from_dec
{
    if i < 0 || i > s.len() {
        Seq::empty()
    } else {
        let e = comma_end(s, i);
        if e < s.len() {
            seq![s.subrange(i, e)] + split_commas_from(s, e + 1)
        } else {
            seq![s.subrange(i, s.len() as int)]
        }
    }
}

#[via_fn]
proof fn split_commas_from_dec(s: Seq<char>, i: int) {
    if 0 <= i <= s.len() {
        lemma_comma_end_bounds(s, i);
    }
}

pub open spec fn split_commas(s: Seq<char>) -> Seq<Seq<char>> {
    split_commas_from(s, 0)
}

/// Cuts `s` at every comma, keeping empty pieces.
pub fn split_on_commas(s: &str) -> (r: Vec<String>)
    ensures
        crate::grep::views_of(r@) == split_commas(s@),
{
    let n = s.unicode_len();
    let mut r: Vec<String> = Vec::new();
    let mut start: usize = 0;
    let mut i: usize = 0;
    while i < n
        invariant
            start <= i <= n == s@.len(),
            forall|m: int| start <= m < i ==> #[trigger] s@[m] != ',',
            crate::grep::views_of(r@) + split_commas_from(s@, start as int) == split_commas(s@),
        decreases n - i,
    {
        let c = s.get_char(i);
        if c == ',' {
            proof {
                lemma_comma_end_run(s@, start as int, i as int);
            }
            let piece = s.substring_char(start, i);
            let ghost prev_views = crate::grep::views_of(r@);
            r.push(piece.to_owned());
            proof {
                assert(crate::grep::views_of(r@) =~= prev_views.push(piece@));
                assert(crate::grep::views_of(r@) + split_commas_from(s@, i + 1) =~= prev_views
                    + split_commas_from(s@, start as int));
            }
            start = i + 1;
        }
        i = i + 1;
    }
    proof {
        lemma_comma_end_run(s@, start as int, n as int);
    }
    let piece = s.substring_char(start, n);
    let ghost prev_views = crate::grep::views_of(r@);
    r.push(piece.to_owned());
    proof {
        assert(split_commas_from(s@, start as int) =~= seq![
            s@.subrange(start as int, n as int),
        ]);
        assert(crate::grep::views_of(r@) =~= prev_views.push(piece@));
        assert(crate::grep::views_of(r@) =~= split_commas(s@));
    }
    r
}

/// The commands the tool understands.
pub enum Commands {
    /// Greet someone by name.
    Hello { name: String },
    /// Walk through the interactive prompts.
    Inquire {},
    /// Kill processes by port or by program name, comma-separated.
    Kill { port_or_program_name: String },
}

/// The parsed command line.
pub struct Cli {
    pub command: Commands,
}

/// What the runtime is to do for one parsed command line.
pub enum CommandAction {
    /// Greet this name.
    Hello { name: String },
    /// Run the interactive prompts.
    Inquire,
    /// Look these targets up and kill what matches.
    Kill { targets: Vec<String> },
}

/// Turns a parsed command line into the action to run: the pure half of
/// dispatching, before the runtime performs the action.
pub fn dispatch_command(cli: Cli) -> (r: CommandAction)
    ensures
        cli.command matches Commands::Hello { name } ==> r matches CommandAction::Hello {
            name: n } && n == name,
        cli.command is Inquire ==> r is Inquire,
        cli.command matches Commands::Kill { port_or_program_name } ==> r
            matches CommandAction::Kill { targets } && crate::grep::views_of(targets@)
            == split_commas(port_or_program_name@),
{
    match cli.command {
        Commands::Hello { name } => CommandAction::Hello { name },
        Commands::Inquire {} => CommandAction::Inquire,
        Commands::Kill { port_or_program_name } => {
            let targets = split_on_commas(port_or_program_name.as_str());
            CommandAction::Kill { targets }
        }
    }
}

} // verus!
