//! What the library asks of git, and what comes back. The library never runs
//! git itself: it names a command, and is handed the outcome.

use vstd::prelude::*;
use vstd::string::StringExecFns;

verus! {

/// The line format that the log is asked for: one JSON object per commit,
/// whose members are git's placeholders for the committer date, the subject,
/// the author and committer names and addresses, and the abbreviated tree
/// hash.
pub const LOG_FORMAT: &'static str =
    "{\"commit_date\":\"%ci\", \"commit_message\":\"%s\", \"author_name\":\"%an\", \"author_email\":\"%ae\", \"committer_name\":\"%cn\", \"committer_email\":\"%ce\",  \"tree_hash\":\"%t\"}";

/// The option that hands the line format to `git log`.
pub const FORMAT_OPTION: &'static str = "--format=";

/// A git command that the library may ask for. Each is run in the directory
/// under inspection.
#[derive(Debug, PartialEq, Eq)]
pub enum GitCommand {
    /// `git branch -r`: the remote branches.
    RemoteBranches,
    /// `git status -s`: the short status listing.
    ShortStatus,
    /// `git diff --stat`: the diff summary.
    DiffStat,
    /// `git log` in the format `LOG_FORMAT`, of `branch`, or of git's own
    /// choice of revision where `branch` is empty.
    Log { branch: String },
}

/// A command as a mathematical value.
pub enum GitCommandView {
    RemoteBranches,
    ShortStatus,
    DiffStat,
    Log { branch: Seq<char> },
}

impl View for GitCommand {
    type V = GitCommandView;

    open spec fn view(&self) -> GitCommandView {
        match self {
            GitCommand::RemoteBranches => GitCommandView::RemoteBranches,
            GitCommand::ShortStatus => GitCommandView::ShortStatus,
            GitCommand::DiffStat => GitCommandView::DiffStat,
            GitCommand::Log { branch } => GitCommandView::Log { branch: branch@ },
        }
    }
}

/// The arguments that a command hands to git.
pub open spec fn arguments(command: GitCommandView) -> Seq<Seq<char>> {
    match command {
        GitCommandView::RemoteBranches => seq!["branch"@, "-r"@],
        GitCommandView::ShortStatus => seq!["status"@, "-s"@],
        GitCommandView::DiffStat => seq!["diff"@, "--stat"@],
        GitCommandView::Log { branch } => if branch.len() == 0 {
            seq!["log"@, FORMAT_OPTION@ + LOG_FORMAT@]
        } else {
            seq!["log"@, FORMAT_OPTION@ + LOG_FORMAT@, branch]
        },
    }
}

impl GitCommand {
    /// The arguments to hand to git, in order.
    pub fn args(&self) -> (out: Vec<String>)
        ensures
            out@.len() == arguments(self@).len(),
            forall|i: int| 0 <= i < out@.len() ==> (#[trigger] out@[i])@ == arguments(self@)[i],
    {
        let mut out: Vec<String> = Vec::new();
        match self {
            GitCommand::RemoteBranches => {
                out.push("branch".to_owned());
                out.push("-r".to_owned());
            },
            GitCommand::ShortStatus => {
                out.push("status".to_owned());
                out.push("-s".to_owned());
            },
            GitCommand::DiffStat => {
                out.push("diff".to_owned());
                out.push("--stat".to_owned());
            },
            GitCommand::Log { branch } => {
                out.push("log".to_owned());
                out.push(FORMAT_OPTION.to_owned().concat(LOG_FORMAT));
                if !branch.as_str().is_empty() {
                    out.push(branch.clone());
                }
            },
        }
        out
    }
}

/// How a command ended.
#[derive(Debug)]
pub enum Outcome {
    /// Git ran and succeeded; this is what it wrote to standard output.
    Success(String),
    /// Git could not be run or did not succeed; this says why.
    Failure(String),
}

/// An outcome as a mathematical value.
pub enum OutcomeView {
    Success(Seq<char>),
    Failure(Seq<char>),
}

impl View for Outcome {
    type V = OutcomeView;

    open spec fn view(&self) -> OutcomeView {
        match self {
            Outcome::Success(output) => OutcomeView::Success(output@),
            Outcome::Failure(reason) => OutcomeView::Failure(reason@),
        }
    }
}

} // verus!
