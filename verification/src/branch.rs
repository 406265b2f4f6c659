//! Which remote branch the history is read from.

use crate::command::{Outcome, OutcomeView};
use crate::text::{
    chars_of, contains, lemma_lines, line_end, lines, range_contains, trim, trim_range,
};
use vstd::prelude::*;

verus! {

/// The token that marks a symbolic reference in the listing of branches.
pub const HEAD: &'static str = "HEAD";

/// The first of `entries` that does not contain `token`.
pub open spec fn first_without(entries: Seq<Seq<char>>, token: Seq<char>) -> Option<Seq<char>>
    decreases entries.len(),
{
    if entries.len() == 0 {
        None
    } else if !contains(entries[0], token) {
        Some(entries[0])
    } else {
        first_without(entries.drop_first(), token)
    }
}

/// The branch that a listing of remote branches gives: its first line without
/// `HEAD`, trimmed; the empty text where every line has it.
pub open spec fn listed_branch(listing: Seq<char>) -> Seq<char> {
    match first_without(lines(listing), HEAD@) {
        Some(entry) => trim(entry),
        None => Seq::empty(),
    }
}

/// The branch that the outcome of listing the remote branches gives: the
/// empty text where the listing could not be had.
pub open spec fn resolved_branch(listing: OutcomeView) -> Seq<char> {
    match listing {
        OutcomeView::Success(output) => listed_branch(output),
        OutcomeView::Failure(_) => Seq::empty(),
    }
}

/// Picks the branch from a listing of remote branches: the first line that
/// does not contain `HEAD`, without the white space around it.
pub fn pick_branch(listing: &str) -> (out: String)
    ensures
        out@ == listed_branch(listing@),
{
    let chars = chars_of(listing);
    let head = chars_of(HEAD);
    let mut start: usize = 0;
    proof {
        assert(chars@.skip(0) == chars@);
    }
    loop
        invariant
            chars@ == listing@,
            head@ == HEAD@,
            start <= chars.len(),
            first_without(lines(listing@), HEAD@) == first_without(
                lines(chars@.skip(start as int)),
                HEAD@,
            ),
        decreases chars.len() - start,
    {
        let ghost rest = chars@.skip(start as int);
        let end = line_end(&chars, start);
        proof {
            lemma_lines(rest);
            assert(rest.take(end - start) == chars@.subrange(start as int, end as int));
        }
        if !range_contains(&chars, start, end, &head) {
            let bounds = trim_range(&chars, start, end);
            return listing.substring_char(bounds.0, bounds.1).to_owned();
        }
        if end == chars.len() {
            proof {
                assert(rest.take(end - start) == rest);
                assert(lines(rest) == seq![rest]);
                assert(lines(rest).drop_first() =~= Seq::<Seq<char>>::empty());
                assert(first_without(lines(rest).drop_first(), HEAD@) is None);
            }
            return String::new();
        }
        proof {
            assert(rest.skip(end - start + 1) == chars@.skip(end + 1));
            assert(lines(rest).drop_first() =~= lines(chars@.skip(end + 1)));
        }
        start = end + 1;
    }
}

/// Resolves the branch from the outcome of listing the remote branches. Where
/// the listing could not be had, the branch is the empty text, which leaves
/// the choice of revision to git.
pub fn resolve_branch(listing: &Outcome) -> (out: String)
    ensures
        out@ == resolved_branch(listing@),
{
    match listing {
        Outcome::Success(output) => pick_branch(output.as_str()),
        Outcome::Failure(_) => String::new(),
    }
}

} // verus!
