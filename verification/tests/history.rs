use git_info::branch::{pick_branch, resolve_branch};
use git_info::command::Outcome;
use git_info::commit::{assemble, parse_log, parse_record, read_date, read_text, Commit, Field};
use git_info::date_codec::Timestamp;
use git_info::info::{log_output, Info, LOG_FAILED};

fn line(date: &str, message: &str) -> String {
    format!(
        "{{\"commit_date\":\"{}\", \"commit_message\":\"{}\", \"author_name\":\"Ann\", \"author_email\":\"ann@example.org\", \"committer_name\":\"Bob\", \"committer_email\":\"bob@example.org\",  \"tree_hash\":\"a1b2c3d\"}}",
        date, message
    )
}

fn at(secs: i64) -> Option<Timestamp> {
    Some(Timestamp::new(secs, 0).expect("an instant that can be encoded"))
}

fn text(s: &str) -> Option<String> {
    Some(s.to_string())
}

#[test]
fn blank_commit_has_no_field_set() {
    let commit = Commit::new();
    assert_eq!(commit.commit_date, None);
    assert_eq!(commit.commit_message, None);
    assert_eq!(commit.author_name, None);
    assert_eq!(commit.author_email, None);
    assert_eq!(commit.committer_name, None);
    assert_eq!(commit.committer_email, None);
    assert_eq!(commit.tree_hash, None);
    assert_eq!(commit.clone(), commit);
}

#[test]
fn record_with_every_member() {
    let commit = parse_record(&line("2022-03-05 10:20:30 +0100", "Fix parser"));
    assert_eq!(
        commit,
        Commit {
            commit_date: at(1646475630),
            commit_message: text("Fix parser"),
            author_name: text("Ann"),
            author_email: text("ann@example.org"),
            committer_name: text("Bob"),
            committer_email: text("bob@example.org"),
            tree_hash: text("a1b2c3d"),
        }
    );
    assert_eq!(commit.clone(), commit);
}

#[test]
fn record_members_may_be_absent_or_null_or_in_any_order() {
    let commit = parse_record(
        "{\"tree_hash\":\"ff00\",\"author_name\":null,\"commit_date\":\"2014-08-29 16:09:40 -0600\",\"extra\":[1,2]}",
    );
    assert_eq!(
        commit,
        Commit {
            commit_date: at(1409328580),
            commit_message: None,
            author_name: None,
            author_email: None,
            committer_name: None,
            committer_email: None,
            tree_hash: text("ff00"),
        }
    );
}

#[test]
fn record_with_a_name_twice_keeps_the_last() {
    let commit = parse_record(
        "{\"commit_date\":\"2022-03-05 10:20:30 +0100\",\"tree_hash\":\"a\",\"tree_hash\":\"b\"}",
    );
    assert_eq!(commit.tree_hash, text("b"));
    assert_eq!(commit.commit_date, at(1646475630));
}

#[test]
fn record_escapes_are_read_as_json() {
    let commit = parse_record(&line("2022-03-04 09:00:00 +0000", "say \\\"hi\\\"\\n"));
    assert_eq!(commit.commit_message, text("say \"hi\"\n"));
    assert_eq!(commit.commit_date, at(1646384400));
}

#[test]
fn unreadable_records_are_blank() {
    let blank = Commit::new();
    // not JSON at all, and JSON cut short
    assert_eq!(parse_record(""), blank);
    assert_eq!(parse_record("fatal: bad revision"), blank);
    assert_eq!(parse_record("{\"commit_date\":\"2022-03-05 10:20:30 +0100\", \"commit_mess"), blank);
    // an unescaped quote in the subject
    assert_eq!(parse_record(&line("2022-03-05 10:20:30 +0100", "a \"quoted\" word")), blank);
    // JSON, but no object
    assert_eq!(parse_record("[\"2022-03-05 10:20:30 +0100\"]"), blank);
    assert_eq!(parse_record("\"2022-03-05 10:20:30 +0100\""), blank);
    assert_eq!(parse_record("null"), blank);
    // no date, a null date, a date that is no text, a date that does not decode
    assert_eq!(parse_record("{\"commit_message\":\"x\"}"), blank);
    assert_eq!(parse_record("{\"commit_date\":null,\"commit_message\":\"x\"}"), blank);
    assert_eq!(parse_record("{\"commit_date\":1646475630}"), blank);
    assert_eq!(parse_record(&line("yesterday", "x")), blank);
    assert_eq!(parse_record(&line("2022-02-30 10:20:30 +0100", "x")), blank);
    // a member that is neither null nor a text
    assert_eq!(
        parse_record("{\"commit_date\":\"2022-03-05 10:20:30 +0100\",\"tree_hash\":7}"),
        blank
    );
    assert_eq!(
        parse_record("{\"commit_date\":\"2022-03-05 10:20:30 +0100\",\"author_name\":{\"first\":\"Ann\"}}"),
        blank
    );
}

#[test]
fn failed_log_stands_for_the_blank_commit() {
    assert_eq!(
        LOG_FAILED,
        "{\"author_email\":null,\"author_name\":null,\"commit_date\":\"null\",\"commit_message\":null,\"committer_email\":null,\"committer_name\":null,\"tree_hash\":null}"
    );
    assert_eq!(log_output(Outcome::Failure(String::from("exit status: 128"))), LOG_FAILED);
    assert_eq!(log_output(Outcome::Success(String::from("abc"))), "abc");
    assert_eq!(parse_record(LOG_FAILED), Commit::new());
    assert_eq!(parse_log(LOG_FAILED), None);
}

#[test]
fn assemble_reads_each_member() {
    let commit = assemble(
        at(5),
        Some(Field::Text(String::from("m"))),
        None,
        Some(Field::Null),
        Some(Field::Text(String::new())),
        None,
        Some(Field::Text(String::from("t"))),
    );
    assert_eq!(
        commit,
        Commit {
            commit_date: at(5),
            commit_message: text("m"),
            author_name: None,
            author_email: None,
            committer_name: text(""),
            committer_email: None,
            tree_hash: text("t"),
        }
    );
    assert_eq!(assemble(None, None, None, None, None, None, None), Commit::new());
    assert_eq!(
        assemble(None, Some(Field::Text(String::from("m"))), None, None, None, None, None),
        Commit::new()
    );
    assert_eq!(assemble(at(5), Some(Field::Other), None, None, None, None, None), Commit::new());
    assert_eq!(assemble(at(5), None, None, None, None, None, Some(Field::Other)), Commit::new());
    assert_eq!(assemble(at(5), None, None, None, None, None, None).commit_date, at(5));
}

#[test]
fn members_as_texts_and_dates() {
    assert_eq!(read_text(None), Some(None));
    assert_eq!(read_text(Some(Field::Null)), Some(None));
    assert_eq!(read_text(Some(Field::Text(String::from("a")))), Some(text("a")));
    assert_eq!(read_text(Some(Field::Other)), None);
    assert_eq!(read_date(None), None);
    assert_eq!(read_date(Some(Field::Null)), None);
    assert_eq!(read_date(Some(Field::Other)), None);
    assert_eq!(read_date(Some(Field::Text(String::from("soon")))), None);
    assert_eq!(read_date(Some(Field::Text(String::from("2014-08-29 16:09:40 -0600")))), at(1409328580));
}

#[test]
fn empty_log_has_no_history() {
    assert_eq!(parse_log(""), None);
    assert_eq!(parse_log("\n\n"), None);
}

#[test]
fn history_keeps_the_order_of_the_log() {
    let log = [
        line("2022-03-05 10:20:30 +0100", "third"),
        line("2022-03-04 09:00:00 +0000", "second"),
        line("2014-08-29 16:09:40 -0600", "first"),
    ]
    .join("\n");
    let commits = parse_log(&log).expect("a history");
    assert_eq!(commits.len(), 3);
    assert_eq!(commits[0].commit_message, text("third"));
    assert_eq!(commits[0].commit_date, at(1646475630));
    assert_eq!(commits[1].commit_message, text("second"));
    assert_eq!(commits[1].commit_date, at(1646384400));
    assert_eq!(commits[2].commit_message, text("first"));
    assert_eq!(commits[2].commit_date, at(1409328580));
}

#[test]
fn history_holds_five_commits_at_most() {
    let lines: Vec<String> = (0..7)
        .map(|i| line("2022-03-05 10:20:30 +0100", &format!("commit {}", i)))
        .collect();
    let commits = parse_log(&lines.join("\n")).expect("a history");
    assert_eq!(commits.len(), 5);
    for (i, commit) in commits.iter().enumerate() {
        assert_eq!(commit.commit_message, Some(format!("commit {}", i)));
        assert!(commit.commit_date.is_some());
    }
    let one = parse_log(&lines[0]).expect("a history");
    assert_eq!(one.len(), 1);
}

#[test]
fn malformed_line_is_dropped_and_the_rest_kept() {
    let good_a = line("2022-03-05 10:20:30 +0100", "a");
    let good_b = line("2022-03-04 09:00:00 +0000", "b");
    let cut = &good_a[..40];
    let log = format!("{}\n{}\n{}", good_a, cut, good_b);
    let commits = parse_log(&log).expect("a history");
    assert_eq!(commits, vec![parse_record(&good_a), parse_record(&good_b)]);
    assert_eq!(commits[0].commit_message, text("a"));
    assert_eq!(commits[1].commit_message, text("b"));
    let without = parse_log(&format!("{}\n{}", good_a, good_b)).expect("a history");
    assert_eq!(commits, without);
}

#[test]
fn lines_are_capped_before_they_are_filtered() {
    let good = line("2022-03-05 10:20:30 +0100", "late");
    // five unreadable lines use up the window
    let log = format!("x\nx\nx\nx\nx\n{}", good);
    assert_eq!(parse_log(&log), None);
    // with four, the fifth line is still looked at
    let log = format!("x\nx\nx\nx\n{}\n{}", good, good);
    let commits = parse_log(&log).expect("a history");
    assert_eq!(commits.len(), 1);
    assert_eq!(commits[0].commit_message, text("late"));
}

#[test]
fn trailing_line_break_is_an_empty_line() {
    let good = line("2022-03-05 10:20:30 +0100", "only");
    let commits = parse_log(&format!("{}\n", good)).expect("a history");
    assert_eq!(commits.len(), 1);
}

#[test]
fn commit_query_reads_the_log() {
    let log = format!(
        "{}\n{}",
        line("2022-03-05 10:20:30 +0100", "newer"),
        line("2022-03-04 09:00:00 +0000", "older")
    );
    let info = Info::new("repo", true)
        .commit_info()
        .advance(Outcome::Success(String::from("  origin/HEAD -> origin/main\n  origin/main\n")))
        .advance(Outcome::Success(log))
        .finish()
        .expect("done");
    assert_eq!(info.branch, Some(String::from("origin/main")));
    let commits = info.commits.expect("a history");
    assert_eq!(commits.len(), 2);
    assert_eq!(commits[0].commit_message, text("newer"));
    assert_eq!(commits[1].tree_hash, text("a1b2c3d"));
}

#[test]
fn branch_is_the_first_entry_without_head() {
    assert_eq!(pick_branch("  origin/HEAD -> origin/main\n  origin/main\n  origin/dev\n"), "origin/main");
    assert_eq!(pick_branch("  origin/dev\n  origin/HEAD -> origin/main\n"), "origin/dev");
    assert_eq!(pick_branch("\t origin/feature/x \t\n"), "origin/feature/x");
    assert_eq!(pick_branch("  upstream/HEADS-UP\n  upstream/topic"), "upstream/topic");
    assert_eq!(pick_branch("  origin/head\n"), "origin/head");
}

#[test]
fn branch_is_empty_where_there_is_none() {
    assert_eq!(pick_branch(""), "");
    assert_eq!(pick_branch("  origin/HEAD -> origin/main"), "");
    assert_eq!(pick_branch("  origin/HEAD -> origin/main\n"), "");
    assert_eq!(pick_branch("   \n  origin/main\n"), "");
    assert_eq!(resolve_branch(&Outcome::Failure(String::from("exit status: 1"))), "");
    assert_eq!(resolve_branch(&Outcome::Success(String::from(" origin/main "))), "origin/main");
}
