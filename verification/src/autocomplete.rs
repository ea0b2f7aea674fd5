//! The email autocomplete's logic: which known addresses match the typed
//! prefix-subsequence, how they are highlighted, and which completion is
//! offered. The interactive prompt around it stays outside the library.

use crate::grep::views_of;
use crate::text::{highlight_spec, highlight_subsequence, is_subseq_of, is_subsequence};
use crate::text::{remove_ansi_escape_codes, strip_ansi};
use vstd::prelude::*;

verus! {

/// Whether the matcher accepts `email` for `input` (with the matcher's
/// quirk: an empty email matches anything).
pub open spec fn suggests(email: Seq<char>, input: Seq<char>) -> bool {
    email.len() == 0 || is_subseq_of(input, email)
}

/// The acceptance test for `input`, as a function over emails.
pub open spec fn suggests_pred(input: Seq<char>) -> spec_fn(Seq<char>) -> bool {
    |e: Seq<char>| suggests(e, input)
}

/// The highlighting for `input`, as a function over emails.
pub open spec fn highlighter(input: Seq<char>) -> spec_fn(Seq<char>) -> Seq<char> {
    |e: Seq<char>| highlight_spec(e, input)
}

/// The suggestions for `input`: every email whose characters contain the
/// typed ones as a subsequence, highlighted where they matched.
pub fn email_suggestions(emails: &Vec<String>, input: &str) -> (r: Vec<String>)
    ensures
        views_of(r@) == views_of(emails@).filter(suggests_pred(input@)).map_values(
            highlighter(input@),
        ),
{
    broadcast use vstd::seq_lib::group_filter_ensures;

    let ghost pred = suggests_pred(input@);
    let ghost hl = highlighter(input@);
    let mut r: Vec<String> = Vec::new();
    let mut k: usize = 0;
    while k < emails.len()
        invariant
            k <= emails@.len(),
            views_of(r@) == views_of(emails@).take(k as int).filter(pred).map_values(hl),
            pred == suggests_pred(input@),
            hl == highlighter(input@),
        decreases emails@.len() - k,
    {
        let email = &emails[k];
        proof {
            reveal(Seq::filter);
            assert(views_of(emails@).take(k + 1).drop_last() =~= views_of(emails@).take(k as int));
            assert(views_of(emails@).take(k + 1).last() == emails@[k as int]@);
        }
        if is_subsequence(email.as_str(), input) {
            let ghost prev = views_of(r@);
            let highlighted = highlight_subsequence(email.as_str(), input);
            r.push(highlighted);
            proof {
                assert(views_of(r@) =~= prev.push(hl(emails@[k as int]@)));
                assert(views_of(r@) =~= views_of(emails@).take(k + 1).filter(pred).map_values(hl));
            }
        } else {
            proof {
                assert(views_of(r@) =~= views_of(emails@).take(k + 1).filter(pred).map_values(hl));
            }
        }
        k = k + 1;
    }
    proof {
        assert(views_of(emails@).take(emails@.len() as int) =~= views_of(emails@));
    }
    r
}

/// The completion offered for `input`: the highlighted entry when the
/// prompt has one, otherwise the first suggestion with its highlighting
/// stripped back off, if there is any suggestion at all.
pub fn email_completion(emails: &Vec<String>, input: &str, highlighted: Option<String>) -> (r:
    Option<String>)
    ensures
        highlighted is Some ==> r == highlighted,
        highlighted is None ==> {
            let accepted = views_of(emails@).filter(suggests_pred(input@));
            &&& accepted.len() == 0 ==> r is None
            &&& accepted.len() > 0 ==> r is Some && (r->0)@ == strip_ansi(
                highlight_spec(accepted[0], input@),
                0,
            )
        },
{
    if highlighted.is_some() {
        return highlighted;
    }
    let suggestions = email_suggestions(emails, input);
    let ghost accepted = views_of(emails@).filter(suggests_pred(input@));
    proof {
        assert(suggestions@.len() == views_of(suggestions@).len());
        assert(views_of(suggestions@).len() == accepted.len());
    }
    if suggestions.len() == 0 {
        None
    } else {
        proof {
            assert(views_of(suggestions@)[0] == suggestions@[0]@);
            assert(accepted.map_values(highlighter(input@))[0] == highlighter(input@)(
                accepted[0],
            ));
        }
        Some(remove_ansi_escape_codes(suggestions[0].as_str()))
    }
}

} // verus!
