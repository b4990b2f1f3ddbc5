//! Per-document version numbers that a session announces to its server.
//!
//! A path has no entry until it is opened; opening sets its version to 1,
//! each change adds exactly 1, and closing forgets the path.

use crate::table::KeyedTable;
use vstd::prelude::*;

verus! {

/// The version table after a didOpen of `p`.
pub open spec fn after_open(m: Map<Seq<char>, int>, p: Seq<char>) -> Map<Seq<char>, int> {
    m.insert(p, 1)
}

/// Whether a didChange of `p` is announced: the path is open and its next
/// version still fits the protocol's 32-bit integer.
pub open spec fn change_applies(m: Map<Seq<char>, int>, p: Seq<char>) -> bool {
    m.contains_key(p) && m[p] < i32::MAX
}

/// The version that a didChange of `p` announces, if any.
pub open spec fn change_version(m: Map<Seq<char>, int>, p: Seq<char>) -> Option<int> {
    if change_applies(m, p) {
        Some(m[p] + 1)
    } else {
        None
    }
}

/// The version table after a didChange of `p`.
pub open spec fn after_change(m: Map<Seq<char>, int>, p: Seq<char>) -> Map<Seq<char>, int> {
    if change_applies(m, p) {
        m.insert(p, m[p] + 1)
    } else {
        m
    }
}

/// The version table after a didClose of `p`.
pub open spec fn after_close(m: Map<Seq<char>, int>, p: Seq<char>) -> Map<Seq<char>, int> {
    m.remove(p)
}

/// The table after one didOpen of `p` followed by `n` didChange of `p`.
pub open spec fn after_open_and_changes(m: Map<Seq<char>, int>, p: Seq<char>, n: nat) -> Map<
    Seq<char>,
    int,
>
    decreases n,
{
    if n == 0 {
        after_open(m, p)
    } else {
        after_change(after_open_and_changes(m, p, (n - 1) as nat), p)
    }
}

/// The versions announced by one didOpen of `p` followed by `n` didChange of `p`,
/// in order (`None` for a change that is not announced).
pub open spec fn announced_versions(m: Map<Seq<char>, int>, p: Seq<char>, n: nat) -> Seq<
    Option<int>,
>
    decreases n,
{
    if n == 0 {
        seq![Some(1int)]
    } else {
        announced_versions(m, p, (n - 1) as nat).push(
            change_version(after_open_and_changes(m, p, (n - 1) as nat), p),
        )
    }
}

/// One didOpen followed by `n` didChange on the same path announces exactly
/// the versions 1, 2, ..., n + 1 (as long as they fit a 32-bit integer).
pub proof fn lemma_versions_count_up(m: Map<Seq<char>, int>, p: Seq<char>, n: nat)
    requires
        n < i32::MAX,
    ensures
        announced_versions(m, p, n) == Seq::new(n + 1, |i: int| Some(i + 1)),
        after_open_and_changes(m, p, n).contains_key(p),
        after_open_and_changes(m, p, n)[p] == n + 1,
    decreases n,
{
    if n > 0 {
        lemma_versions_count_up(m, p, (n - 1) as nat);
        assert(announced_versions(m, p, n) =~= Seq::new(n + 1, |i: int| Some(i + 1)));
    } else {
        assert(announced_versions(m, p, n) =~= Seq::new(n + 1, |i: int| Some(i + 1)));
    }
}

/// A didClose followed by a didOpen of the same path starts the path over:
/// the didOpen announces 1 and the next didChange announces 2, whatever the
/// path's version was before.
pub proof fn lemma_close_then_open_resets(m: Map<Seq<char>, int>, p: Seq<char>)
    ensures
        after_open(after_close(m, p), p)[p] == 1,
        change_version(after_open(after_close(m, p), p), p) == Some(2int),
        after_open(after_close(m, p), p) == after_open(m, p),
{
    assert(after_open(after_close(m, p), p) =~= after_open(m, p));
}

/// The version table of one session.
pub struct DocumentVersions {
    table: KeyedTable<i32>,
}

impl View for DocumentVersions {
    type V = Map<Seq<char>, int>;

    closed spec fn view(&self) -> Map<Seq<char>, int> {
        self.table@.map_values(|v: i32| v as int)
    }
}

impl DocumentVersions {
    pub closed spec fn wf(&self) -> bool {
        self.table.wf()
    }

    pub fn new() -> (r: Self)
        ensures
            r.wf(),
            r@ == Map::<Seq<char>, int>::empty(),
    {
        let r = DocumentVersions { table: KeyedTable::new() };
        assert(r@ =~= Map::<Seq<char>, int>::empty());
        r
    }

    /// Records a didOpen of `path` and returns the version it announces (always 1).
    pub fn open(&mut self, path: &String) -> (r: i32)
        requires
            old(self).wf(),
        ensures
            final(self).wf(),
            final(self)@ == after_open(old(self)@, path@),
            r == 1,
    {
        self.table.insert(path.clone(), 1);
        assert(self@ =~= after_open(old(self)@, path@));
        1
    }

    /// Records a didChange of `path`. Returns the version to announce, or `None`
    /// where the path was never opened (the change must not be sent).
    pub fn change(&mut self, path: &String) -> (r: Option<i32>)
        requires
            old(self).wf(),
        ensures
            final(self).wf(),
            final(self)@ == after_change(old(self)@, path@),
            r matches Some(v) ==> change_version(old(self)@, path@) == Some(v as int),
            r is None ==> change_version(old(self)@, path@) is None,
    {
        match self.table.get(path) {
            Some(v) => {
                let v = *v;
                if v < i32::MAX {
                    self.table.insert(path.clone(), v + 1);
                    assert(self@ =~= after_change(old(self)@, path@));
                    Some(v + 1)
                } else {
                    None
                }
            },
            None => None,
        }
    }

    /// Records a didClose of `path`; closing a path that is not open does nothing.
    pub fn close(&mut self, path: &String)
        requires
            old(self).wf(),
        ensures
            final(self).wf(),
            final(self)@ == after_close(old(self)@, path@),
    {
        let _ = self.table.remove(path);
        assert(self@ =~= after_close(old(self)@, path@));
    }

    /// The current version of `path`, if it is open.
    pub fn version_of(&self, path: &String) -> (r: Option<i32>)
        requires
            self.wf(),
        ensures
            r matches Some(v) ==> self@.contains_key(path@) && self@[path@] == v as int,
            r is None ==> !self@.contains_key(path@),
    {
        match self.table.get(path) {
            Some(v) => Some(*v),
            None => None,
        }
    }

    pub fn is_open(&self, path: &String) -> (r: bool)
        requires
            self.wf(),
        ensures
            r == self@.contains_key(path@),
    {
        self.table.contains(path)
    }
}

} // verus!
