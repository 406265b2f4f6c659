//! The status snapshot of a working copy: whether it is modified or dirty.

use crate::text::same_text;
use vstd::prelude::*;

verus! {

/// The name of the flag that says whether the short status listing had output.
pub const IS_MODIFIED: &'static str = "is_modified";

/// The name of the flag that says whether the diff summary had output.
pub const IS_DIRTY: &'static str = "is_dirty";

/// A mapping from flag name to flag, with no name held twice.
#[derive(Debug)]
pub struct Summary {
    entries: Vec<(String, bool)>,
}

/// Whether `name` is the name of one of the first `n` entries.
pub open spec fn named(entries: Seq<(String, bool)>, n: int, name: Seq<char>) -> bool {
    exists|i: int| 0 <= i < n && #[trigger] entries[i].0@ == name
}

/// The position of the entry called `name`.
pub open spec fn position(entries: Seq<(String, bool)>, name: Seq<char>) -> int {
    choose|i: int| 0 <= i < entries.len() && #[trigger] entries[i].0@ == name
}

/// Whether no two entries share a name.
pub open spec fn distinct(entries: Seq<(String, bool)>) -> bool {
    forall|i: int, j: int|
        0 <= i < j < entries.len() ==> #[trigger] entries[i].0@ != #[trigger] entries[j].0@
}

/// The mapping that a list of entries stands for.
pub open spec fn mapping(entries: Seq<(String, bool)>) -> Map<Seq<char>, bool> {
    Map::new(
        |name: Seq<char>| named(entries, entries.len() as int, name),
        |name: Seq<char>| entries[position(entries, name)].1,
    )
}

impl View for Summary {
    type V = Map<Seq<char>, bool>;

    closed spec fn view(&self) -> Map<Seq<char>, bool> {
        mapping(self.entries@)
    }
}

impl Summary {
    #[verifier::type_invariant]
    spec fn unique(self) -> bool {
        distinct(self.entries@)
    }

    /// The empty summary.
    pub fn new() -> (out: Summary)
        ensures
            out@ == Map::<Seq<char>, bool>::empty(),
    {
        let out = Summary { entries: Vec::new() };
        assert(out@ =~= Map::<Seq<char>, bool>::empty());
        out
    }

    /// Whether no flag is held.
    pub fn is_empty(&self) -> (empty: bool)
        ensures
            empty == (self@ == Map::<Seq<char>, bool>::empty()),
    {
        let empty = self.entries.len() == 0;
        proof {
            if empty {
                assert(self@ =~= Map::<Seq<char>, bool>::empty());
            } else {
                assert(self.entries@[0].0@ == self.entries@[0].0@);
                assert(self@.contains_key(self.entries@[0].0@));
            }
        }
        empty
    }

    /// The number of flags held.
    pub fn len(&self) -> (n: usize)
        ensures
            n == self@.dom().len(),
            self@.dom().finite(),
    {
        proof {
            use_type_invariant(self);
            lemma_domain(self.entries@, self.entries@.len() as int);
            assert(self@.dom() =~= Set::new(
                |name: Seq<char>| named(self.entries@, self.entries@.len() as int, name),
            ));
        }
        self.entries.len()
    }

    /// The flag called `name`, if it is held.
    pub fn get(&self, name: &str) -> (flag: Option<bool>)
        ensures
            flag == if self@.contains_key(name@) {
                Some(self@[name@])
            } else {
                None::<bool>
            },
    {
        proof {
            use_type_invariant(self);
        }
        let mut i: usize = 0;
        while i < self.entries.len()
            invariant
                i <= self.entries.len(),
                !named(self.entries@, i as int, name@),
                distinct(self.entries@),
            decreases self.entries.len() - i,
        {
            if same_text(self.entries[i].0.as_str(), name) {
                assert(self.entries@[i as int].0@ == name@);
                assert(position(self.entries@, name@) == i);
                return Some(self.entries[i].1);
            }
            i += 1;
        }
        None
    }

    /// Sets the flag called `name`, whether or not it was held before.
    pub fn insert(&mut self, name: String, flag: bool)
        ensures
            final(self)@ == old(self)@.insert(name@, flag),
    {
        proof {
            use_type_invariant(&*self);
        }
        let ghost before = self.entries@;
        let mut entries = copy_entries(&self.entries);
        let mut i: usize = 0;
        while i < entries.len()
            invariant
                i <= entries.len(),
                entries@ == before,
                old(self)@ == mapping(before),
                !named(before, i as int, name@),
                distinct(before),
            decreases entries.len() - i,
        {
            if same_text(entries[i].0.as_str(), name.as_str()) {
                entries.set(i, (name, flag));
                proof {
                    let after = entries@;
                    assert(after[i as int].0@ == name@);
                    assert forall|p: int, q: int| 0 <= p < q < after.len() implies after[p].0@
                        != after[q].0@ by {
                        assert(after[p].0@ == before[p].0@);
                        assert(after[q].0@ == before[q].0@);
                    }
                    lemma_replaced(before, after, i as int, name@, flag);
                }
                self.entries = entries;
                return ;
            }
            i += 1;
        }
        entries.push((name, flag));
        proof {
            let after = entries@;
            assert(after[before.len() as int].0@ == name@);
            assert forall|p: int, q: int| 0 <= p < q < after.len() implies after[p].0@
                != after[q].0@ by {
                if q < before.len() {
                    assert(after[p] == before[p]);
                    assert(after[q] == before[q]);
                } else {
                    assert(after[p] == before[p]);
                    assert(before[p].0@ != name@);
                }
            }
            lemma_appended(before, after, name@, flag);
        }
        self.entries = entries;
    }

    /// The flags held, each with its name.
    pub fn entries(&self) -> (out: Vec<(String, bool)>)
        ensures
            mapping(out@) == self@,
            distinct(out@),
            out@.len() == self@.dom().len(),
    {
        proof {
            use_type_invariant(self);
            lemma_domain(self.entries@, self.entries@.len() as int);
            assert(self@.dom() =~= Set::new(
                |name: Seq<char>| named(self.entries@, self.entries@.len() as int, name),
            ));
        }
        copy_entries(&self.entries)
    }

}

impl Clone for Summary {
    fn clone(&self) -> (out: Summary)
        ensures
            out@ == self@,
    {
        proof {
            use_type_invariant(self);
        }
        Summary { entries: copy_entries(&self.entries) }
    }
}

/// A copy of a list of entries.
fn copy_entries(entries: &Vec<(String, bool)>) -> (out: Vec<(String, bool)>)
    ensures
        out@ == entries@,
{
    let mut out: Vec<(String, bool)> = Vec::new();
    let mut i: usize = 0;
    while i < entries.len()
        invariant
            i <= entries.len(),
            out@ == entries@.take(i as int),
        decreases entries.len() - i,
    {
        out.push((entries[i].0.clone(), entries[i].1));
        i += 1;
    }
    assert(out@ == entries@);
    out
}

/// The names of the first `n` entries are `n` in number.
pub proof fn lemma_domain(entries: Seq<(String, bool)>, n: int)
    requires
        distinct(entries),
        0 <= n <= entries.len(),
    ensures
        Set::new(|name: Seq<char>| named(entries, n, name)).finite(),
        Set::new(|name: Seq<char>| named(entries, n, name)).len() == n,
    decreases n,
{
    let names = Set::new(|name: Seq<char>| named(entries, n, name));
    if n == 0 {
        assert(names =~= Set::<Seq<char>>::empty());
    } else {
        lemma_domain(entries, n - 1);
        let fewer = Set::new(|name: Seq<char>| named(entries, n - 1, name));
        let last = entries[n - 1].0@;
        assert(!fewer.contains(last));
        assert(names =~= fewer.insert(last)) by {
            assert forall|name: Seq<char>| names.contains(name) implies fewer.insert(
                last,
            ).contains(name) by {
                let i = choose|i: int| 0 <= i < n && #[trigger] entries[i].0@ == name;
                if i < n - 1 {
                    assert(named(entries, n - 1, name));
                }
            }
            assert(entries[n - 1].0@ == last);
        }
    }
}

/// Replacing the flag of an entry sets that flag in the mapping.
pub proof fn lemma_replaced(
    before: Seq<(String, bool)>,
    after: Seq<(String, bool)>,
    at: int,
    name: Seq<char>,
    flag: bool,
)
    requires
        distinct(before),
        0 <= at < before.len(),
        before[at].0@ == name,
        after.len() == before.len(),
        after[at].0@ == name,
        after[at].1 == flag,
        forall|i: int| 0 <= i < before.len() && i != at ==> after[i] == before[i],
    ensures
        mapping(after) == mapping(before).insert(name, flag),
{
    let want = mapping(before).insert(name, flag);
    assert forall|i: int, j: int| 0 <= i < j < after.len() implies after[i].0@ != after[j].0@ by {
        assert(after[i].0@ == before[i].0@);
        assert(after[j].0@ == before[j].0@);
    }
    assert forall|k: Seq<char>| mapping(after).contains_key(k) <==> want.contains_key(k) by {
        if mapping(after).contains_key(k) {
            let i = choose|i: int| 0 <= i < after.len() && #[trigger] after[i].0@ == k;
            assert(before[i].0@ == k);
        }
        if want.contains_key(k) && k != name {
            let i = choose|i: int| 0 <= i < before.len() && #[trigger] before[i].0@ == k;
            assert(after[i].0@ == k);
        }
        if k == name {
            assert(after[at].0@ == k);
        }
    }
    assert forall|k: Seq<char>| mapping(after).contains_key(k) implies mapping(after)[k]
        == want[k] by {
        let i = position(after, k);
        assert(after[i].0@ == k);
        if k == name {
            assert(i == at);
        } else {
            assert(before[i].0@ == k);
            assert(position(before, k) == i);
        }
    }
    assert(mapping(after) =~= want);
}

/// Appending an entry with a new name adds that flag to the mapping.
pub proof fn lemma_appended(
    before: Seq<(String, bool)>,
    after: Seq<(String, bool)>,
    name: Seq<char>,
    flag: bool,
)
    requires
        distinct(before),
        !named(before, before.len() as int, name),
        after.len() == before.len() + 1,
        after[before.len() as int].0@ == name,
        after[before.len() as int].1 == flag,
        forall|i: int| 0 <= i < before.len() ==> after[i] == before[i],
    ensures
        mapping(after) == mapping(before).insert(name, flag),
{
    let want = mapping(before).insert(name, flag);
    let n = before.len() as int;
    assert forall|k: Seq<char>| mapping(after).contains_key(k) <==> want.contains_key(k) by {
        if mapping(after).contains_key(k) {
            let i = choose|i: int| 0 <= i < after.len() && #[trigger] after[i].0@ == k;
            if i < n {
                assert(before[i].0@ == k);
            }
        }
        if want.contains_key(k) && k != name {
            let i = choose|i: int| 0 <= i < before.len() && #[trigger] before[i].0@ == k;
            assert(after[i].0@ == k);
        }
        if k == name {
            assert(after[n].0@ == k);
        }
    }
    assert forall|k: Seq<char>| mapping(after).contains_key(k) implies mapping(after)[k]
        == want[k] by {
        let i = position(after, k);
        assert(after[i].0@ == k);
        if k == name {
            if i < n {
                assert(before[i].0@ == name);
            }
        } else {
            assert(i < n);
            assert(before[i].0@ == k);
            let j = position(before, k);
            assert(before[j].0@ == k);
            if i < j {
                assert(before[i].0@ != before[j].0@);
            }
            if j < i {
                assert(before[j].0@ != before[i].0@);
            }
        }
    }
    assert(mapping(after) =~= want);
}

/// What is known of the state of a working copy.
#[derive(Debug)]
pub struct Status {
    /// Why the short status listing could not be had, if it could not.
    pub error: Option<String>,
    /// Whether the working copy is dirty: modified, or with a diff. Unset
    /// unless both were looked at.
    pub git_dirty: Option<bool>,
    /// The flags `is_modified` and `is_dirty`, once both are known.
    pub summary: Summary,
}

/// A status as a mathematical value.
pub struct StatusView {
    pub error: Option<Seq<char>>,
    pub git_dirty: Option<bool>,
    pub summary: Map<Seq<char>, bool>,
}

impl View for Status {
    type V = StatusView;

    open spec fn view(&self) -> StatusView {
        StatusView {
            error: match self.error {
                Some(e) => Some(e@),
                None => None,
            },
            git_dirty: self.git_dirty,
            summary: self.summary@,
        }
    }
}

/// The status of which nothing is known.
pub open spec fn unset_status() -> StatusView {
    StatusView { error: None, git_dirty: None, summary: Map::empty() }
}

/// The status after the short status listing could not be had.
pub open spec fn failed_status(error: Seq<char>) -> StatusView {
    StatusView { error: Some(error), git_dirty: None, summary: Map::empty() }
}

/// The status after both listings were looked at.
pub open spec fn assessed_status(is_modified: bool, is_dirty: bool) -> StatusView {
    StatusView {
        error: None,
        git_dirty: Some(is_modified || is_dirty),
        summary: Map::<Seq<char>, bool>::empty().insert(IS_MODIFIED@, is_modified).insert(
            IS_DIRTY@,
            is_dirty,
        ),
    }
}

impl StatusView {
    /// The invariant of a status: the dirtiness flag is set exactly when both
    /// flags are known and no error was met, and is then their disjunction;
    /// otherwise the summary is empty.
    pub open spec fn consistent(self) -> bool {
        match self.git_dirty {
            Some(dirty) => {
                &&& self.error is None
                &&& self.summary.dom() =~= set![IS_MODIFIED@, IS_DIRTY@]
                &&& dirty == (self.summary[IS_MODIFIED@] || self.summary[IS_DIRTY@])
            },
            None => self.summary =~= Map::empty(),
        }
    }
}

impl Status {
    /// The status of which nothing is known.
    pub fn new() -> (out: Status)
        ensures
            out@ == unset_status(),
    {
        Status { error: None, git_dirty: None, summary: Summary::new() }
    }

    /// The status after the short status listing could not be had, for the
    /// reason `error`.
    pub fn failed(error: String) -> (out: Status)
        ensures
            out@ == failed_status(error@),
    {
        Status { error: Some(error), git_dirty: None, summary: Summary::new() }
    }

    /// The status after both listings were looked at.
    pub fn assessed(is_modified: bool, is_dirty: bool) -> (out: Status)
        ensures
            out@ == assessed_status(is_modified, is_dirty),
    {
        let mut summary = Summary::new();
        summary.insert(IS_MODIFIED.to_owned(), is_modified);
        summary.insert(IS_DIRTY.to_owned(), is_dirty);
        Status { error: None, git_dirty: Some(is_dirty || is_modified), summary }
    }
}

impl Clone for Status {
    fn clone(&self) -> (out: Status)
        ensures
            out@ == self@,
    {
        let error = match &self.error {
            Some(e) => Some(e.clone()),
            None => None,
        };
        Status { error, git_dirty: self.git_dirty, summary: self.summary.clone() }
    }
}

/// The two flag names differ.
pub proof fn lemma_flag_names()
    ensures
        IS_MODIFIED@ != IS_DIRTY@,
        IS_MODIFIED@.len() == 11,
        IS_DIRTY@.len() == 8,
{
    reveal_strlit("is_modified");
    reveal_strlit("is_dirty");
    assert(IS_MODIFIED@.len() != IS_DIRTY@.len());
}

/// Each of the three kinds of status is consistent, and an assessed status
/// holds each flag under its name.
pub proof fn lemma_status_consistent(error: Seq<char>, is_modified: bool, is_dirty: bool)
    ensures
        unset_status().consistent(),
        failed_status(error).consistent(),
        assessed_status(is_modified, is_dirty).consistent(),
        assessed_status(is_modified, is_dirty).summary[IS_MODIFIED@] == is_modified,
        assessed_status(is_modified, is_dirty).summary[IS_DIRTY@] == is_dirty,
        assessed_status(is_modified, is_dirty).git_dirty == Some(is_modified || is_dirty),
{
    lemma_flag_names();
}

} // verus!
