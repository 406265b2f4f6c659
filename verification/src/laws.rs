//! What holds of the library as a whole, proved over the models that the
//! functions' contracts speak of.

use crate::branch::first_without;
use crate::command::OutcomeView;
use crate::commit::{bounded, kept, lemma_history_bounded, record};
use crate::info::{
    advanced, awaited, commit_query, fresh, log_text, status_query, InfoView, QueryView,
    DIFF_FAILED,
};
use crate::status::{
    assessed_status, failed_status, lemma_status_consistent, unset_status, IS_DIRTY, IS_MODIFIED,
};
use crate::text::contains;
use vstd::prelude::*;

verus! {

impl InfoView {
    /// The invariant of a snapshot: its status, if set, is consistent, and
    /// its history, if set, holds between one and five commits, each with a
    /// date.
    pub open spec fn sound(self) -> bool {
        &&& self.status matches Some(status) ==> status.consistent()
        &&& bounded(self.commits)
    }
}

/// The query after two outcomes in a row.
pub open spec fn after_two(query: QueryView, first: OutcomeView, second: OutcomeView) -> QueryView {
    advanced(advanced(query, first), second)
}

/// In a directory that is no working copy both queries are done at once and
/// ask for no command. The status query sets a status of which nothing is
/// set, with no error; the history query leaves the history unset. Neither
/// touches anything else.
pub proof fn law_untracked(info: InfoView)
    requires
        !info.is_git,
    ensures
        awaited(status_query(info)) is None,
        status_query(info).info == (InfoView { status: Some(unset_status()), ..info }),
        unset_status().error is None,
        unset_status().git_dirty is None,
        awaited(commit_query(info)) is None,
        commit_query(info).info == (InfoView { commits: None, ..info }),
{
}

/// In a working copy the status query asks for the short status listing. If
/// that fails the query is done: the error is recorded and the dirtiness is
/// left unset. Otherwise it asks for the diff summary and is done after it:
/// `is_modified` says whether the listing had output, `is_dirty` whether the
/// summary had, and the working copy is dirty if either holds. A summary
/// that could not be had counts as one with output.
pub proof fn law_status(info: InfoView, short: OutcomeView, diff: OutcomeView)
    requires
        info.is_git,
    ensures
        awaited(status_query(info)) is Some,
        short matches OutcomeView::Failure(reason) ==> {
            let done = advanced(status_query(info), short);
            &&& awaited(done) is None
            &&& done.info == (InfoView { status: Some(failed_status(reason)), ..info })
            &&& failed_status(reason).git_dirty is None
        },
        short matches OutcomeView::Success(output) ==> {
            let done = after_two(status_query(info), short, diff);
            let is_modified = output.len() > 0;
            let is_dirty = match diff {
                OutcomeView::Success(summary) => summary.len() > 0,
                OutcomeView::Failure(_) => true,
            };
            let status = assessed_status(is_modified, is_dirty);
            &&& awaited(advanced(status_query(info), short)) is Some
            &&& awaited(done) is None
            &&& done.info == (InfoView { status: Some(status), ..info })
            &&& status.error is None
            &&& status.git_dirty == Some(is_modified || is_dirty)
            &&& status.summary[IS_MODIFIED@] == is_modified
            &&& status.summary[IS_DIRTY@] == is_dirty
        },
{
    reveal_strlit("ERR");
    assert(DIFF_FAILED@.len() == 3);
    lemma_status_consistent(Seq::empty(), true, true);
    lemma_status_consistent(Seq::empty(), true, false);
    lemma_status_consistent(Seq::empty(), false, true);
    lemma_status_consistent(Seq::empty(), false, false);
}

/// The snapshot of a directory before any query is sound, and every step of
/// every query keeps a snapshot sound. So the history of a snapshot that the
/// queries made is unset, or holds between one and five commits, each with a
/// date.
pub proof fn law_sound(dir: Seq<char>, is_git: bool, query: QueryView, outcome: OutcomeView)
    ensures
        fresh(dir, is_git).sound(),
        query.info.sound() ==> status_query(query.info).info.sound(),
        query.info.sound() ==> commit_query(query.info).info.sound(),
        query.info.sound() ==> advanced(query, outcome).info.sound(),
{
    lemma_status_consistent(Seq::empty(), true, true);
    lemma_status_consistent(Seq::empty(), true, false);
    lemma_status_consistent(Seq::empty(), false, true);
    lemma_status_consistent(Seq::empty(), false, false);
    match outcome {
        OutcomeView::Success(output) => {
            lemma_history_bounded(output);
            lemma_status_consistent(output, true, true);
        },
        OutcomeView::Failure(reason) => {
            lemma_status_consistent(reason, true, true);
        },
    }
    lemma_history_bounded(log_text(outcome));
}

/// A query is done after two outcomes at most, and a query that is done
/// stays as it is whatever it is handed.
pub proof fn law_done(info: InfoView, first: OutcomeView, second: OutcomeView, third: OutcomeView)
    ensures
        awaited(after_two(status_query(info), first, second)) is None,
        awaited(after_two(commit_query(info), first, second)) is None,
        advanced(after_two(status_query(info), first, second), third) == after_two(
            status_query(info),
            first,
            second,
        ),
        advanced(after_two(commit_query(info), first, second), third) == after_two(
            commit_query(info),
            first,
            second,
        ),
{
}

/// The two queries do not depend on each other: on the same outcomes, the
/// status query after the history query gives the snapshot that the history
/// query after the status query gives.
pub proof fn law_commute(
    info: InfoView,
    short: OutcomeView,
    diff: OutcomeView,
    listing: OutcomeView,
    log: OutcomeView,
)
    ensures
        after_two(
            commit_query(after_two(status_query(info), short, diff).info),
            listing,
            log,
        ).info == after_two(
            status_query(after_two(commit_query(info), listing, log).info),
            short,
            diff,
        ).info,
{
}

/// A line that gives no dated commit leaves no trace: the commits kept are
/// those of the other lines, in their order.
pub proof fn law_undated_line_dropped(lines: Seq<Seq<char>>, at: int)
    requires
        0 <= at < lines.len(),
        record(lines[at]).commit_date is None,
    ensures
        kept(lines) == kept(lines.remove(at)),
    decreases lines.len(),
{
    let shorter = lines.remove(at);
    if at == lines.len() - 1 {
        assert(shorter =~= lines.drop_last());
    } else {
        law_undated_line_dropped(lines.drop_last(), at);
        assert(shorter.drop_last() =~= lines.drop_last().remove(at));
        assert(shorter.last() == lines.last());
    }
}

/// Every line that gives a dated commit is kept: its commit stands among
/// the commits kept.
pub proof fn law_dated_line_kept(lines: Seq<Seq<char>>, at: int)
    requires
        0 <= at < lines.len(),
        record(lines[at]).commit_date is Some,
    ensures
        kept(lines).contains(record(lines[at])),
    decreases lines.len(),
{
    let before = kept(lines.drop_last());
    if at == lines.len() - 1 {
        let all = before.push(record(lines[at]));
        assert(all[before.len() as int] == record(lines[at]));
    } else {
        law_dated_line_kept(lines.drop_last(), at);
        let found = choose|i: int| 0 <= i < before.len() && before[i] == record(lines[at]);
        if record(lines.last()).commit_date is Some {
            assert(before.push(record(lines.last()))[found] == record(lines[at]));
        }
    }
}

/// The branch is taken from the first entry of the listing that does not
/// hold the token, whatever stands before it.
pub proof fn law_first_without(entries: Seq<Seq<char>>, token: Seq<char>, at: int)
    requires
        0 <= at < entries.len(),
        forall|i: int| 0 <= i < at ==> contains(#[trigger] entries[i], token),
        !contains(entries[at], token),
    ensures
        first_without(entries, token) == Some(entries[at]),
    decreases at,
{
    if at > 0 {
        let rest = entries.drop_first();
        assert forall|i: int| 0 <= i < at - 1 implies contains(#[trigger] rest[i], token) by {
            assert(rest[i] == entries[i + 1]);
        }
        law_first_without(rest, token, at - 1);
    }
}

/// Where every entry of the listing holds the token, no entry is taken.
pub proof fn law_none_without(entries: Seq<Seq<char>>, token: Seq<char>)
    requires
        forall|i: int| 0 <= i < entries.len() ==> contains(#[trigger] entries[i], token),
    ensures
        first_without(entries, token) is None,
    decreases entries.len(),
{
    if entries.len() > 0 {
        let rest = entries.drop_first();
        assert forall|i: int| 0 <= i < rest.len() implies contains(#[trigger] rest[i], token) by {
            assert(rest[i] == entries[i + 1]);
        }
        law_none_without(rest, token);
    }
}

} // verus!
