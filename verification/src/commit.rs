//! Commit records: the line format that the log is asked for, and how a line
//! becomes a commit.

use crate::date_codec::{decoded, deserialize, shown_date, Timestamp};
use crate::text::{first_lines, least, lines};
use serde_json::Value;
use vstd::prelude::*;

verus! {

/// How many lines of the log are looked at, and so the most commits that a
/// history holds.
pub const MAX_COMMITS: usize = 5;

/// The name of the member that holds the commit date.
pub const COMMIT_DATE: &'static str = "commit_date";

/// The name of the member that holds the subject line.
pub const COMMIT_MESSAGE: &'static str = "commit_message";

/// The name of the member that holds the author's name.
pub const AUTHOR_NAME: &'static str = "author_name";

/// The name of the member that holds the author's address.
pub const AUTHOR_EMAIL: &'static str = "author_email";

/// The name of the member that holds the committer's name.
pub const COMMITTER_NAME: &'static str = "committer_name";

/// The name of the member that holds the committer's address.
pub const COMMITTER_EMAIL: &'static str = "committer_email";

/// The name of the member that holds the abbreviated tree hash.
pub const TREE_HASH: &'static str = "tree_hash";

/// One commit of the history. Every field may be unset: a line that cannot be
/// read gives the commit with no field set.
#[derive(Debug, PartialEq)]
pub struct Commit {
    /// When the commit was made.
    pub commit_date: Option<Timestamp>,
    /// The subject line of the commit message.
    pub commit_message: Option<String>,
    /// Who wrote the change.
    pub author_name: Option<String>,
    /// The author's address.
    pub author_email: Option<String>,
    /// Who committed the change, which need not be the author.
    pub committer_name: Option<String>,
    /// The committer's address.
    pub committer_email: Option<String>,
    /// The abbreviated hash of the commit's tree.
    pub tree_hash: Option<String>,
}

/// A commit as a mathematical value.
pub struct CommitView {
    pub commit_date: Option<(int, int)>,
    pub commit_message: Option<Seq<char>>,
    pub author_name: Option<Seq<char>>,
    pub author_email: Option<Seq<char>>,
    pub committer_name: Option<Seq<char>>,
    pub committer_email: Option<Seq<char>>,
    pub tree_hash: Option<Seq<char>>,
}

/// The characters of a text that may be unset.
pub open spec fn shown(text: Option<String>) -> Option<Seq<char>> {
    match text {
        Some(t) => Some(t@),
        None => None,
    }
}

impl View for Commit {
    type V = CommitView;

    open spec fn view(&self) -> CommitView {
        CommitView {
            commit_date: shown_date(self.commit_date),
            commit_message: shown(self.commit_message),
            author_name: shown(self.author_name),
            author_email: shown(self.author_email),
            committer_name: shown(self.committer_name),
            committer_email: shown(self.committer_email),
            tree_hash: shown(self.tree_hash),
        }
    }
}

/// The commit with no field set.
pub open spec fn blank() -> CommitView {
    CommitView {
        commit_date: None,
        commit_message: None,
        author_name: None,
        author_email: None,
        committer_name: None,
        committer_email: None,
        tree_hash: None,
    }
}

/// A copy of a text that may be unset.
pub fn copy_text(text: &Option<String>) -> (out: Option<String>)
    ensures
        shown(out) == shown(*text),
{
    match text {
        Some(t) => Some(t.clone()),
        None => None,
    }
}

impl Commit {
    /// The commit with no field set.
    pub fn new() -> (out: Commit)
        ensures
            out@ == blank(),
    {
        Commit {
            commit_date: None,
            commit_message: None,
            author_name: None,
            author_email: None,
            committer_name: None,
            committer_email: None,
            tree_hash: None,
        }
    }
}

impl Clone for Commit {
    fn clone(&self) -> (out: Commit)
        ensures
            out@ == self@,
    {
        Commit {
            commit_date: self.commit_date,
            commit_message: copy_text(&self.commit_message),
            author_name: copy_text(&self.author_name),
            author_email: copy_text(&self.author_email),
            committer_name: copy_text(&self.committer_name),
            committer_email: copy_text(&self.committer_email),
            tree_hash: copy_text(&self.tree_hash),
        }
    }
}

/// What a member of a record holds, as far as a commit reads it.
#[derive(Debug)]
pub enum Field {
    /// The JSON value `null`.
    Null,
    /// A JSON string.
    Text(String),
    /// Any other JSON value: a number, a truth value, an array, an object.
    Other,
}

/// A member as a mathematical value.
pub enum FieldView {
    Null,
    Text(Seq<char>),
    Other,
}

impl View for Field {
    type V = FieldView;

    open spec fn view(&self) -> FieldView {
        match self {
            Field::Null => FieldView::Null,
            Field::Text(t) => FieldView::Text(t@),
            Field::Other => FieldView::Other,
        }
    }
}

/// A member that may be absent, as a mathematical value.
pub open spec fn seen(field: Option<Field>) -> Option<FieldView> {
    match field {
        Some(f) => Some(f@),
        None => None,
    }
}

/// serde_json's `Value`: a JSON document, of which the library reads the
/// members through `member` alone.
#[verifier::external_type_specification]
#[verifier::external_body]
pub struct ExValue(Value);

/// The members of a JSON document, each under its name: those of the object
/// if the document is one, none if it is anything else.
pub uninterp spec fn json_members(document: Value) -> Map<Seq<char>, FieldView>;

/// The members of the JSON document that serde_json reads from `text`; `None`
/// where serde_json rejects the text.
pub uninterp spec fn json_record(text: Seq<char>) -> Option<Map<Seq<char>, FieldView>>;

/// Calls `serde_json::from_str` for a `serde_json::Value` and drops the error.
/// The contract only names the outcome: the document's members are
/// `json_record` of the text, and there is no document exactly where that is
/// `None`.
#[verifier::external_body]
fn parse_json(text: &str) -> (out: Option<Value>)
    ensures
        out is Some <==> json_record(text@) is Some,
        out matches Some(document) ==> json_record(text@) == Some(json_members(document)),
{
    serde_json::from_str::<Value>(text).ok()
}

/// Calls `Value::get` with a name and tells the variants of the value found
/// apart. As its documentation says, `get` finds nothing in a document that is
/// no object, and nothing under a name that the object does not hold.
#[verifier::external_body]
fn member(document: &Value, name: &str) -> (out: Option<Field>)
    ensures
        seen(out) == if json_members(*document).contains_key(name@) {
            Some(json_members(*document)[name@])
        } else {
            None::<FieldView>
        },
{
    match document.get(name) {
        None => None,
        Some(Value::Null) => Some(Field::Null),
        Some(Value::String(text)) => Some(Field::Text(text.clone())),
        Some(_) => Some(Field::Other),
    }
}

/// What a member gives for an optional text: an absent or null member leaves
/// the text unset, a string sets it, and anything else is no text at all
/// (the outer `None`).
pub open spec fn optional_text(field: Option<FieldView>) -> Option<Option<Seq<char>>> {
    match field {
        None => Some(None),
        Some(FieldView::Null) => Some(None),
        Some(FieldView::Text(t)) => Some(Some(t)),
        Some(FieldView::Other) => None,
    }
}

/// The text of the date member: it must be there, and a string.
pub open spec fn date_text(field: Option<FieldView>) -> Option<Seq<char>> {
    match field {
        Some(FieldView::Text(t)) => Some(t),
        _ => None,
    }
}

/// The commit that a date and six members make: the blank commit unless the
/// date is set and each member is an optional text.
pub open spec fn assembled(
    date: Option<(int, int)>,
    message: Option<FieldView>,
    author_name: Option<FieldView>,
    author_email: Option<FieldView>,
    committer_name: Option<FieldView>,
    committer_email: Option<FieldView>,
    tree_hash: Option<FieldView>,
) -> CommitView {
    if date is Some && optional_text(message) is Some && optional_text(author_name) is Some
        && optional_text(author_email) is Some && optional_text(committer_name) is Some
        && optional_text(committer_email) is Some && optional_text(tree_hash) is Some {
        CommitView {
            commit_date: date,
            commit_message: optional_text(message)->0,
            author_name: optional_text(author_name)->0,
            author_email: optional_text(author_email)->0,
            committer_name: optional_text(committer_name)->0,
            committer_email: optional_text(committer_email)->0,
            tree_hash: optional_text(tree_hash)->0,
        }
    } else {
        blank()
    }
}

/// The member called `name`, if there is one.
pub open spec fn lookup(members: Map<Seq<char>, FieldView>, name: Seq<char>) -> Option<
    FieldView,
> {
    if members.contains_key(name) {
        Some(members[name])
    } else {
        None
    }
}

/// The instant that the date member stands for, if it is a text that the
/// date codec decodes.
pub open spec fn decoded_date(field: Option<FieldView>) -> Option<(int, int)> {
    match date_text(field) {
        Some(text) => decoded(text),
        None => None,
    }
}

/// The commit that the members of a document make.
pub open spec fn commit_of(members: Map<Seq<char>, FieldView>) -> CommitView {
    assembled(
        decoded_date(lookup(members, COMMIT_DATE@)),
        lookup(members, COMMIT_MESSAGE@),
        lookup(members, AUTHOR_NAME@),
        lookup(members, AUTHOR_EMAIL@),
        lookup(members, COMMITTER_NAME@),
        lookup(members, COMMITTER_EMAIL@),
        lookup(members, TREE_HASH@),
    )
}

/// The commit that a line of the log stands for: the blank commit where the
/// line is no JSON document or its members make no commit.
pub open spec fn record(line: Seq<char>) -> CommitView {
    match json_record(line) {
        Some(members) => commit_of(members),
        None => blank(),
    }
}

/// Reads a member as an optional text; the outer `None` says that it is none.
pub fn read_text(field: Option<Field>) -> (out: Option<Option<String>>)
    ensures
        match out {
            Some(text) => optional_text(seen(field)) == Some(shown(text)),
            None => optional_text(seen(field)) is None,
        },
{
    match field {
        None => Some(None),
        Some(Field::Null) => Some(None),
        Some(Field::Text(text)) => Some(Some(text)),
        Some(Field::Other) => None,
    }
}

/// Reads the date member: set only where it is a text that the date codec
/// decodes.
pub fn read_date(field: Option<Field>) -> (out: Option<Timestamp>)
    ensures
        shown_date(out) == decoded_date(seen(field)),
{
    match field {
        Some(Field::Text(text)) => match deserialize(text.as_str()) {
            Ok(date) => date,
            Err(_) => None,
        },
        _ => None,
    }
}

/// Makes a commit of a date and six members. The result is the blank commit
/// unless the date is set and each member is absent, null or a string.
pub fn assemble(
    date: Option<Timestamp>,
    message: Option<Field>,
    author_name: Option<Field>,
    author_email: Option<Field>,
    committer_name: Option<Field>,
    committer_email: Option<Field>,
    tree_hash: Option<Field>,
) -> (out: Commit)
    ensures
        out@ == assembled(
            shown_date(date),
            seen(message),
            seen(author_name),
            seen(author_email),
            seen(committer_name),
            seen(committer_email),
            seen(tree_hash),
        ),
{
    if date.is_none() {
        return Commit::new();
    }
    let commit_message = match read_text(message) {
        Some(text) => text,
        None => { return Commit::new(); },
    };
    let author_name = match read_text(author_name) {
        Some(text) => text,
        None => { return Commit::new(); },
    };
    let author_email = match read_text(author_email) {
        Some(text) => text,
        None => { return Commit::new(); },
    };
    let committer_name = match read_text(committer_name) {
        Some(text) => text,
        None => { return Commit::new(); },
    };
    let committer_email = match read_text(committer_email) {
        Some(text) => text,
        None => { return Commit::new(); },
    };
    let tree_hash = match read_text(tree_hash) {
        Some(text) => text,
        None => { return Commit::new(); },
    };
    Commit {
        commit_date: date,
        commit_message,
        author_name,
        author_email,
        committer_name,
        committer_email,
        tree_hash,
    }
}

/// Reads one line of the log as a commit. A line that is no JSON document, or
/// whose members make no commit, gives the blank commit.
pub fn parse_record(line: &str) -> (out: Commit)
    ensures
        out@ == record(line@),
{
    match parse_json(line) {
        Some(document) => {
            let date = read_date(member(&document, COMMIT_DATE));
            assemble(
                date,
                member(&document, COMMIT_MESSAGE),
                member(&document, AUTHOR_NAME),
                member(&document, AUTHOR_EMAIL),
                member(&document, COMMITTER_NAME),
                member(&document, COMMITTER_EMAIL),
                member(&document, TREE_HASH),
            )
        },
        None => Commit::new(),
    }
}

/// The commits of `lines`, in order, without those that have no date.
pub open spec fn kept(lines: Seq<Seq<char>>) -> Seq<CommitView>
    decreases lines.len(),
{
    if lines.len() == 0 {
        Seq::empty()
    } else {
        let before = kept(lines.drop_last());
        let commit = record(lines.last());
        if commit.commit_date is Some {
            before.push(commit)
        } else {
            before
        }
    }
}

/// The lines of the log that are looked at: the first `MAX_COMMITS`.
pub open spec fn candidates(log: Seq<char>) -> Seq<Seq<char>> {
    lines(log).take(least(lines(log).len() as int, MAX_COMMITS as int))
}

/// The history that a log gives: the dated commits among its candidate lines,
/// and no history at all where there is none.
pub open spec fn history(log: Seq<char>) -> Option<Seq<CommitView>> {
    let found = kept(candidates(log));
    if found.len() > 0 {
        Some(found)
    } else {
        None
    }
}

/// A list of commits as a mathematical value.
pub open spec fn shown_commits(commits: Seq<Commit>) -> Seq<CommitView> {
    Seq::new(commits.len(), |i: int| commits[i]@)
}

/// A history that may be unset, as a mathematical value.
pub open spec fn shown_history(commits: Option<Vec<Commit>>) -> Option<Seq<CommitView>> {
    match commits {
        Some(list) => Some(shown_commits(list@)),
        None => None,
    }
}

/// Whether a history is unset, or holds between one and `MAX_COMMITS` commits,
/// each with a date.
pub open spec fn bounded(commits: Option<Seq<CommitView>>) -> bool {
    commits matches Some(list) ==> {
        &&& 1 <= list.len() <= MAX_COMMITS
        &&& forall|i: int| 0 <= i < list.len() ==> (#[trigger] list[i]).commit_date is Some
    }
}

/// No more commits are kept than there are lines, and each has a date.
pub proof fn lemma_kept(lines: Seq<Seq<char>>)
    ensures
        kept(lines).len() <= lines.len(),
        forall|i: int| 0 <= i < kept(lines).len() ==> (#[trigger] kept(lines)[i]).commit_date is Some,
    decreases lines.len(),
{
    if lines.len() > 0 {
        lemma_kept(lines.drop_last());
    }
}

/// The history of every log is unset, or holds between one and `MAX_COMMITS`
/// commits, each with a date.
pub proof fn lemma_history_bounded(log: Seq<char>)
    ensures
        bounded(history(log)),
{
    lemma_kept(candidates(log));
}

/// Reads the log: the first `MAX_COMMITS` lines, each as a commit, without
/// those that have no date. Where none is left the history is unset.
pub fn parse_log(log: &str) -> (out: Option<Vec<Commit>>)
    ensures
        shown_history(out) == history(log@),
        bounded(shown_history(out)),
{
    let found = first_lines(log, MAX_COMMITS);
    let ghost looked = candidates(log@);
    let mut commits: Vec<Commit> = Vec::new();
    let mut i: usize = 0;
    proof {
        assert(looked.take(0) =~= Seq::<Seq<char>>::empty());
    }
    while i < found.len()
        invariant
            i <= found.len(),
            found@.len() == looked.len(),
            forall|j: int| 0 <= j < found@.len() ==> (#[trigger] found@[j])@ == looked[j],
            shown_commits(commits@) =~= kept(looked.take(i as int)),
        decreases found.len() - i,
    {
        let commit = parse_record(found[i].as_str());
        proof {
            let next = looked.take(i + 1);
            assert(next.drop_last() =~= looked.take(i as int));
            assert(next.last() == looked[i as int]);
        }
        if commit.commit_date.is_some() {
            commits.push(commit);
        }
        i += 1;
    }
    proof {
        assert(looked.take(i as int) =~= looked);
        lemma_history_bounded(log@);
    }
    if commits.len() > 0 {
        Some(commits)
    } else {
        None
    }
}

} // verus!
