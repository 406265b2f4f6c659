use git_info::command::{GitCommand, Outcome};
use git_info::info::{Info, Query, QueryError, Stage};

fn ok(text: &str) -> Outcome {
    Outcome::Success(text.to_string())
}

fn failed(text: &str) -> Outcome {
    Outcome::Failure(text.to_string())
}

/// Hands a query the outcomes in turn, as long as it asks for a command.
fn run(mut query: Query, outcomes: Vec<Outcome>) -> Query {
    for outcome in outcomes {
        if query.pending().is_none() {
            break;
        }
        query = query.advance(outcome);
    }
    query
}

// The outcomes are those of a project made by `cargo new` and never committed:
// the short status lists the untracked files, there is no diff, no remote
// branch, and no log.
#[test]
fn it_works() {
    let dir = String::from("test_project");

    let info = run(
        Info::new(&dir, true).status_info(),
        vec![ok("?? .gitignore\n?? Cargo.toml\n?? src/"), ok("")],
    )
    .finish()
    .expect("Unable to get status info");
    let info = run(
        info.commit_info(),
        vec![
            ok(""),
            failed("fatal: your current branch 'master' does not have any commits yet"),
        ],
    )
    .finish()
    .expect("Unable to get commit info");

    assert_eq!(None, info.commits);
    assert_eq!(Some(true), info.status.expect("err").git_dirty);
}

#[test]
fn the_crate_root_names_the_main_types() {
    let info: git_info::Info = git_info::Info::new("repo", false);
    let query: git_info::Query = info.status_info();
    assert!(matches!(query.stage, git_info::Stage::Done));
    assert_eq!(git_info::Commit::new(), git_info::commit::Commit::new());
    assert!(git_info::Status::new().summary.is_empty());
}

#[test]
fn new_sets_only_dir_and_is_git() {
    let info = Info::new("/srv/project", true);
    assert_eq!(info.dir, "/srv/project");
    assert!(info.is_git);
    assert_eq!(info.branch, None);
    assert!(info.status.is_none());
    assert_eq!(info.commits, None);
    let other = Info::new("", false);
    assert_eq!(other.dir, "");
    assert!(!other.is_git);
}

#[test]
fn untracked_directory_asks_for_nothing() {
    let info = Info::new("/tmp/plain", false);

    let query = info.status_info();
    assert_eq!(query.pending(), None);
    let after = query.finish().expect("done at once");
    assert!(!after.is_git);
    assert_eq!(after.dir, "/tmp/plain");
    let status = after.status.clone().expect("a status is set");
    assert_eq!(status.error, None);
    assert_eq!(status.git_dirty, None);
    assert!(status.summary.is_empty());
    assert_eq!(after.commits, None);
    assert_eq!(after.branch, None);

    let query = after.commit_info();
    assert_eq!(query.pending(), None);
    let last = query.finish().expect("done at once");
    assert_eq!(last.commits, None);
    assert_eq!(last.branch, None);
    assert!(last.status.is_some());
}

#[test]
fn untracked_directory_loses_a_history_it_was_given() {
    let mut info = Info::new("/tmp/plain", false);
    info.commits = Some(vec![git_info::commit::Commit::new()]);
    let after = info.commit_info().finish().expect("done at once");
    assert_eq!(after.commits, None);
}

#[test]
fn clean_working_copy_without_commits() {
    let info = run(Info::new("repo", true).status_info(), vec![ok(""), ok("")])
        .finish()
        .expect("status");
    let info = run(info.commit_info(), vec![ok(""), failed("no commits")])
        .finish()
        .expect("commits");
    let status = info.status.expect("status is set");
    assert_eq!(status.git_dirty, Some(false));
    assert_eq!(status.error, None);
    assert_eq!(status.summary.get("is_modified"), Some(false));
    assert_eq!(status.summary.get("is_dirty"), Some(false));
    assert_eq!(info.commits, None);
    assert_eq!(info.branch, Some(String::new()));
}

#[test]
fn modified_unstaged_file() {
    let info = run(
        Info::new("repo", true).status_info(),
        vec![
            ok(" M src/lib.rs"),
            ok(" src/lib.rs | 2 +-\n 1 file changed, 1 insertion(+), 1 deletion(-)"),
        ],
    )
    .finish()
    .expect("status");
    let status = info.status.expect("status is set");
    assert_eq!(status.summary.get("is_modified"), Some(true));
    assert_eq!(status.summary.get("is_dirty"), Some(true));
    assert_eq!(status.summary.len(), 2);
    assert_eq!(status.git_dirty, Some(true));
}

#[test]
fn untracked_file_is_modified_but_not_dirty() {
    let info = run(Info::new("repo", true).status_info(), vec![ok("?? notes.txt"), ok("")])
        .finish()
        .expect("status");
    let status = info.status.expect("status is set");
    assert_eq!(status.summary.get("is_modified"), Some(true));
    assert_eq!(status.summary.get("is_dirty"), Some(false));
    assert_eq!(status.git_dirty, Some(true));
}

#[test]
fn white_space_counts_as_output() {
    let info = run(Info::new("repo", true).status_info(), vec![ok(" "), ok("\n")])
        .finish()
        .expect("status");
    let status = info.status.expect("status is set");
    assert_eq!(status.summary.get("is_modified"), Some(true));
    assert_eq!(status.summary.get("is_dirty"), Some(true));
}

#[test]
fn short_status_failure_is_recorded_and_ends_the_query() {
    let query = Info::new("repo", true).status_info();
    assert_eq!(query.pending(), Some(GitCommand::ShortStatus));
    let query = query.advance(failed("Os { code: 2, kind: NotFound, message: \"No such file or directory\" }"));
    assert_eq!(query.pending(), None);
    let status = query.finish().expect("done").status.expect("status is set");
    assert_eq!(
        status.error,
        Some(String::from("Os { code: 2, kind: NotFound, message: \"No such file or directory\" }"))
    );
    assert_eq!(status.git_dirty, None);
    assert!(status.summary.is_empty());
    assert_eq!(status.summary.get("is_modified"), None);
}

#[test]
fn diff_failure_counts_as_dirty() {
    let query = Info::new("repo", true).status_info().advance(ok(""));
    assert_eq!(query.pending(), Some(GitCommand::DiffStat));
    let status = query
        .advance(failed("exit status: 128"))
        .finish()
        .expect("done")
        .status
        .expect("status is set");
    assert_eq!(status.error, None);
    assert_eq!(status.summary.get("is_modified"), Some(false));
    assert_eq!(status.summary.get("is_dirty"), Some(true));
    assert_eq!(status.git_dirty, Some(true));
}

#[test]
fn status_query_asks_for_status_then_diff() {
    let query = Info::new("repo", true).status_info();
    assert!(matches!(query.stage, Stage::ShortStatus));
    let query = query.advance(ok("M  a"));
    assert!(matches!(query.stage, Stage::DiffStat { is_modified: true }));
    assert!(query.info.status.is_none());
    let query = query.advance(ok(""));
    assert!(matches!(query.stage, Stage::Done));
}

#[test]
fn commit_query_asks_for_branches_then_log() {
    let query = Info::new("repo", true).commit_info();
    assert_eq!(query.pending(), Some(GitCommand::RemoteBranches));
    let query = query.advance(ok("  origin/HEAD -> origin/main\n  origin/main\n"));
    assert_eq!(
        query.pending(),
        Some(GitCommand::Log { branch: String::from("origin/main") })
    );
    assert_eq!(query.info.branch, None);
    let query = query.advance(ok(""));
    assert_eq!(query.pending(), None);
    let info = query.finish().expect("done");
    assert_eq!(info.branch, Some(String::from("origin/main")));
    assert_eq!(info.commits, None);
}

#[test]
fn branch_lookup_failure_falls_back_to_the_empty_branch() {
    let query = Info::new("repo", true).commit_info().advance(failed("exit status: 1"));
    assert_eq!(query.pending(), Some(GitCommand::Log { branch: String::new() }));
}

#[test]
fn unfinished_query_gives_no_snapshot() {
    let query = Info::new("repo", true).status_info();
    assert_eq!(query.finish().err(), Some(QueryError::Pending(GitCommand::ShortStatus)));
    let query = Info::new("repo", true).status_info().advance(ok(""));
    assert_eq!(query.finish().err(), Some(QueryError::Pending(GitCommand::DiffStat)));
    let query = Info::new("repo", true).commit_info();
    assert_eq!(query.finish().err(), Some(QueryError::Pending(GitCommand::RemoteBranches)));
    let query = Info::new("repo", true).commit_info().advance(ok("  origin/dev"));
    assert_eq!(
        query.finish().err(),
        Some(QueryError::Pending(GitCommand::Log { branch: String::from("origin/dev") }))
    );
}

#[test]
fn finished_query_ignores_further_outcomes() {
    let query = run(Info::new("repo", true).status_info(), vec![ok("x"), ok("")]);
    let query = query.advance(failed("late")).advance(ok(""));
    let status = query.finish().expect("done").status.expect("status is set");
    assert_eq!(status.error, None);
    assert_eq!(status.git_dirty, Some(true));
    assert_eq!(status.summary.get("is_dirty"), Some(false));
}

const ONE: &str = "{\"commit_date\":\"2022-03-05 10:20:30 +0100\", \"commit_message\":\"Fix parser\", \"author_name\":\"Ann\", \"author_email\":\"ann@example.org\", \"committer_name\":\"Bob\", \"committer_email\":\"bob@example.org\",  \"tree_hash\":\"a1b2c3d\"}";

#[test]
fn queries_commute() {
    let start = Info::new("repo", true);
    let status_first = run(start.status_info(), vec![ok(" M a"), ok("")]).finish().expect("status");
    let status_first = run(status_first.commit_info(), vec![ok("  origin/main"), ok(ONE)])
        .finish()
        .expect("commits");
    let commits_first = run(start.commit_info(), vec![ok("  origin/main"), ok(ONE)])
        .finish()
        .expect("commits");
    let commits_first = run(commits_first.status_info(), vec![ok(" M a"), ok("")])
        .finish()
        .expect("status");

    assert_eq!(status_first.dir, commits_first.dir);
    assert_eq!(status_first.is_git, commits_first.is_git);
    assert_eq!(status_first.branch, commits_first.branch);
    assert_eq!(status_first.commits, commits_first.commits);
    assert_eq!(status_first.commits.as_ref().map(|c| c.len()), Some(1));
    let a = status_first.status.expect("status is set");
    let b = commits_first.status.expect("status is set");
    assert_eq!(a.error, b.error);
    assert_eq!(a.git_dirty, b.git_dirty);
    assert_eq!(a.summary.get("is_modified"), b.summary.get("is_modified"));
    assert_eq!(a.summary.get("is_dirty"), b.summary.get("is_dirty"));
    assert_eq!(a.git_dirty, Some(true));
}

#[test]
fn only_one_query_leaves_the_other_field_unset() {
    let start = Info::new("repo", true);
    let only_status = run(start.status_info(), vec![ok(""), ok("")]).finish().expect("status");
    assert!(only_status.status.is_some());
    assert_eq!(only_status.commits, None);
    assert_eq!(only_status.branch, None);
    let only_commits = run(start.commit_info(), vec![ok("  origin/main"), ok(ONE)])
        .finish()
        .expect("commits");
    assert!(only_commits.status.is_none());
    assert_eq!(only_commits.commits.map(|c| c.len()), Some(1));
}

#[test]
fn a_query_leaves_the_snapshot_it_started_from_alone() {
    let start = Info::new("repo", true);
    let _ = run(start.status_info(), vec![ok("x"), ok("y")]).finish().expect("status");
    assert!(start.status.is_none());
    assert_eq!(start.commits, None);
}

#[test]
fn arguments_of_each_command() {
    assert_eq!(GitCommand::RemoteBranches.args(), vec!["branch", "-r"]);
    assert_eq!(GitCommand::ShortStatus.args(), vec!["status", "-s"]);
    assert_eq!(GitCommand::DiffStat.args(), vec!["diff", "--stat"]);
    let format = "--format={\"commit_date\":\"%ci\", \"commit_message\":\"%s\", \"author_name\":\"%an\", \"author_email\":\"%ae\", \"committer_name\":\"%cn\", \"committer_email\":\"%ce\",  \"tree_hash\":\"%t\"}";
    assert_eq!(
        GitCommand::Log { branch: String::from("origin/main") }.args(),
        vec!["log", format, "origin/main"]
    );
    assert_eq!(GitCommand::Log { branch: String::new() }.args(), vec!["log", format]);
}
