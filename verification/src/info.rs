//! The inspection of one directory: what is known of it, and the queries
//! that add to that.
//!
//! A query is a small state machine. It names the git command that it needs
//! next; the caller runs it and hands the outcome back, until the query is
//! done and gives the new snapshot.

use crate::branch::{resolve_branch, resolved_branch};
use crate::command::{GitCommand, GitCommandView, Outcome, OutcomeView};
use crate::commit::{
    copy_text, history, parse_log, shown, shown_commits, shown_history, Commit, CommitView,
};
use crate::status::{assessed_status, failed_status, unset_status, Status, StatusView};
use vstd::prelude::*;

verus! {

/// What stands for the diff summary where it could not be had. It is not
/// empty, so such a working copy counts as dirty.
pub const DIFF_FAILED: &'static str = "ERR";

/// What stands for the log where it could not be had: the record of the
/// blank commit, which has no date that the date codec decodes.
pub const LOG_FAILED: &'static str =
    "{\"author_email\":null,\"author_name\":null,\"commit_date\":\"null\",\"commit_message\":null,\"committer_email\":null,\"committer_name\":null,\"tree_hash\":null}";

/// What is known of a directory. A query never changes a snapshot: it gives a
/// new one.
#[derive(Debug)]
pub struct Info {
    /// The directory under inspection.
    pub dir: String,
    /// Whether the directory is a git working copy.
    pub is_git: bool,
    /// The branch whose history was read.
    pub branch: Option<String>,
    /// The state of the working copy.
    pub status: Option<Status>,
    /// The most recent commits, newest first.
    pub commits: Option<Vec<Commit>>,
}

/// A snapshot as a mathematical value.
pub struct InfoView {
    pub dir: Seq<char>,
    pub is_git: bool,
    pub branch: Option<Seq<char>>,
    pub status: Option<StatusView>,
    pub commits: Option<Seq<CommitView>>,
}

impl View for Info {
    type V = InfoView;

    open spec fn view(&self) -> InfoView {
        InfoView {
            dir: self.dir@,
            is_git: self.is_git,
            branch: shown(self.branch),
            status: match self.status {
                Some(status) => Some(status@),
                None => None,
            },
            commits: shown_history(self.commits),
        }
    }
}

/// How far a query has come.
#[derive(Debug)]
pub enum Stage {
    /// The short status listing is awaited.
    ShortStatus,
    /// The diff summary is awaited; the short status listing is in.
    DiffStat { is_modified: bool },
    /// The listing of remote branches is awaited.
    RemoteBranches,
    /// The log of `branch` is awaited.
    Log { branch: String },
    /// Nothing is awaited: the snapshot is the result.
    Done,
}

/// A stage as a mathematical value.
pub enum StageView {
    ShortStatus,
    DiffStat { is_modified: bool },
    RemoteBranches,
    Log { branch: Seq<char> },
    Done,
}

impl View for Stage {
    type V = StageView;

    open spec fn view(&self) -> StageView {
        match self {
            Stage::ShortStatus => StageView::ShortStatus,
            Stage::DiffStat { is_modified } => StageView::DiffStat { is_modified: *is_modified },
            Stage::RemoteBranches => StageView::RemoteBranches,
            Stage::Log { branch } => StageView::Log { branch: branch@ },
            Stage::Done => StageView::Done,
        }
    }
}

/// A query under way: the snapshot that it works on, and its stage.
#[derive(Debug)]
pub struct Query {
    pub info: Info,
    pub stage: Stage,
}

/// A query as a mathematical value.
pub struct QueryView {
    pub info: InfoView,
    pub stage: StageView,
}

impl View for Query {
    type V = QueryView;

    open spec fn view(&self) -> QueryView {
        QueryView { info: self.info@, stage: self.stage@ }
    }
}

/// Why a query gave no snapshot.
#[derive(Debug, PartialEq, Eq)]
pub enum QueryError {
    /// The query still awaits the outcome of this command.
    Pending(GitCommand),
}

/// The snapshot of a directory of which only `is_git` is known.
pub open spec fn fresh(dir: Seq<char>, is_git: bool) -> InfoView {
    InfoView { dir, is_git, branch: None, status: None, commits: None }
}

/// The text that counts as the diff summary.
pub open spec fn diff_text(diff: OutcomeView) -> Seq<char> {
    match diff {
        OutcomeView::Success(output) => output,
        OutcomeView::Failure(_) => DIFF_FAILED@,
    }
}

/// The text that counts as the log.
pub open spec fn log_text(log: OutcomeView) -> Seq<char> {
    match log {
        OutcomeView::Success(output) => output,
        OutcomeView::Failure(_) => LOG_FAILED@,
    }
}

/// The query for the status of `info`, at its start.
pub open spec fn status_query(info: InfoView) -> QueryView {
    if info.is_git {
        QueryView { info, stage: StageView::ShortStatus }
    } else {
        QueryView { info: InfoView { status: Some(unset_status()), ..info }, stage: StageView::Done }
    }
}

/// The query for the history of `info`, at its start.
pub open spec fn commit_query(info: InfoView) -> QueryView {
    if info.is_git {
        QueryView { info, stage: StageView::RemoteBranches }
    } else {
        QueryView { info: InfoView { commits: None, ..info }, stage: StageView::Done }
    }
}

/// The command whose outcome a query awaits.
pub open spec fn awaited(query: QueryView) -> Option<GitCommandView> {
    match query.stage {
        StageView::ShortStatus => Some(GitCommandView::ShortStatus),
        StageView::DiffStat { .. } => Some(GitCommandView::DiffStat),
        StageView::RemoteBranches => Some(GitCommandView::RemoteBranches),
        StageView::Log { branch } => Some(GitCommandView::Log { branch }),
        StageView::Done => None,
    }
}

/// The query after the outcome of the command that it awaited.
pub open spec fn advanced(query: QueryView, outcome: OutcomeView) -> QueryView {
    match query.stage {
        StageView::ShortStatus => match outcome {
            OutcomeView::Success(output) => QueryView {
                info: query.info,
                stage: StageView::DiffStat { is_modified: output.len() > 0 },
            },
            OutcomeView::Failure(reason) => QueryView {
                info: InfoView { status: Some(failed_status(reason)), ..query.info },
                stage: StageView::Done,
            },
        },
        StageView::DiffStat { is_modified } => QueryView {
            info: InfoView {
                status: Some(assessed_status(is_modified, diff_text(outcome).len() > 0)),
                ..query.info
            },
            stage: StageView::Done,
        },
        StageView::RemoteBranches => QueryView {
            info: query.info,
            stage: StageView::Log { branch: resolved_branch(outcome) },
        },
        StageView::Log { branch } => QueryView {
            info: InfoView {
                branch: Some(branch),
                commits: history(log_text(outcome)),
                ..query.info
            },
            stage: StageView::Done,
        },
        StageView::Done => query,
    }
}

/// A copy of a list of commits.
fn copy_commits(commits: &Vec<Commit>) -> (out: Vec<Commit>)
    ensures
        shown_commits(out@) == shown_commits(commits@),
{
    let mut out: Vec<Commit> = Vec::new();
    let mut i: usize = 0;
    while i < commits.len()
        invariant
            i <= commits.len(),
            out@.len() == i,
            forall|j: int| 0 <= j < i ==> (#[trigger] out@[j])@ == commits@[j]@,
        decreases commits.len() - i,
    {
        out.push(commits[i].clone());
        i += 1;
    }
    assert(shown_commits(out@) =~= shown_commits(commits@));
    out
}

impl Clone for Info {
    fn clone(&self) -> (out: Info)
        ensures
            out@ == self@,
    {
        Info {
            dir: self.dir.clone(),
            is_git: self.is_git,
            branch: copy_text(&self.branch),
            status: match &self.status {
                Some(status) => Some(status.clone()),
                None => None,
            },
            commits: match &self.commits {
                Some(commits) => Some(copy_commits(commits)),
                None => None,
            },
        }
    }
}

impl Info {
    /// The snapshot of `dir` before any query. `is_git` says whether `dir`
    /// holds the directory `.git`, which is for the caller to look up.
    pub fn new(dir: &str, is_git: bool) -> (out: Info)
        ensures
            out@ == fresh(dir@, is_git),
    {
        Info { dir: dir.to_owned(), is_git, branch: None, status: None, commits: None }
    }

    /// Starts the query for the state of the working copy. Where the
    /// directory is no working copy the query is done at once, with a status
    /// of which nothing is set.
    pub fn status_info(&self) -> (out: Query)
        ensures
            out@ == status_query(self@),
    {
        let mut info = self.clone();
        if info.is_git {
            Query { info, stage: Stage::ShortStatus }
        } else {
            info.status = Some(Status::new());
            Query { info, stage: Stage::Done }
        }
    }

    /// Starts the query for the recent history. Where the directory is no
    /// working copy the query is done at once, with no history.
    pub fn commit_info(&self) -> (out: Query)
        ensures
            out@ == commit_query(self@),
    {
        let mut info = self.clone();
        if info.is_git {
            Query { info, stage: Stage::RemoteBranches }
        } else {
            info.commits = None;
            Query { info, stage: Stage::Done }
        }
    }
}

/// The text that counts as the diff summary: what git wrote, or `DIFF_FAILED`
/// where the summary could not be had.
pub fn diff_output(diff: Outcome) -> (out: String)
    ensures
        out@ == diff_text(diff@),
{
    match diff {
        Outcome::Success(output) => output,
        Outcome::Failure(_) => DIFF_FAILED.to_owned(),
    }
}

/// The text that counts as the log: what git wrote, or `LOG_FAILED` where the
/// log could not be had.
pub fn log_output(log: Outcome) -> (out: String)
    ensures
        out@ == log_text(log@),
{
    match log {
        Outcome::Success(output) => output,
        Outcome::Failure(_) => LOG_FAILED.to_owned(),
    }
}

impl Query {
    /// The command to run next, if the query is not done.
    pub fn pending(&self) -> (out: Option<GitCommand>)
        ensures
            (match out {
                Some(command) => Some(command@),
                None => None,
            }) == awaited(self@),
    {
        match &self.stage {
            Stage::ShortStatus => Some(GitCommand::ShortStatus),
            Stage::DiffStat { .. } => Some(GitCommand::DiffStat),
            Stage::RemoteBranches => Some(GitCommand::RemoteBranches),
            Stage::Log { branch } => Some(GitCommand::Log { branch: branch.clone() }),
            Stage::Done => None,
        }
    }

    /// Takes the outcome of the pending command and moves on. A query that
    /// is done stays as it is.
    pub fn advance(self, outcome: Outcome) -> (out: Query)
        ensures
            out@ == advanced(self@, outcome@),
    {
        let Query { info, stage } = self;
        let mut info = info;
        match stage {
            Stage::ShortStatus => match outcome {
                Outcome::Success(output) => {
                    let is_modified = !output.as_str().is_empty();
                    Query { info, stage: Stage::DiffStat { is_modified } }
                },
                Outcome::Failure(reason) => {
                    info.status = Some(Status::failed(reason));
                    Query { info, stage: Stage::Done }
                },
            },
            Stage::DiffStat { is_modified } => {
                let is_dirty = !diff_output(outcome).as_str().is_empty();
                info.status = Some(Status::assessed(is_modified, is_dirty));
                Query { info, stage: Stage::Done }
            },
            Stage::RemoteBranches => {
                let branch = resolve_branch(&outcome);
                Query { info, stage: Stage::Log { branch } }
            },
            Stage::Log { branch } => {
                info.commits = parse_log(log_output(outcome).as_str());
                info.branch = Some(branch);
                Query { info, stage: Stage::Done }
            },
            Stage::Done => Query { info, stage: Stage::Done },
        }
    }

    /// The snapshot that the query gives, once it is done.
    pub fn finish(self) -> (out: Result<Info, QueryError>)
        ensures
            match out {
                Ok(info) => awaited(self@) is None && info@ == self@.info,
                Err(QueryError::Pending(command)) => awaited(self@) == Some(command@),
            },
    {
        match self.pending() {
            Some(command) => Err(QueryError::Pending(command)),
            None => Ok(self.info),
        }
    }
}

} // verus!
