//! The workspace registry: the authoritative in-memory list of workspace
//! entries.
//!
//! Well-formedness: ids are unique, and every worktree's `parent_id`
//! references a registered main entry — worktrees cannot nest.  The list
//! order is the order the persisted list is written in.

use vstd::prelude::*;

use crate::types::{EntryModel, WorkspaceEntry};

verus! {

/// Whether the sequence holds an entry with the given id.
pub open spec fn has_id(s: Seq<EntryModel>, id: Seq<char>) -> bool {
    exists|i: int| 0 <= i < s.len() && s[i].id == id
}

/// The index of the entry with the given id.
pub open spec fn idx_of(s: Seq<EntryModel>, id: Seq<char>) -> int {
    choose|i: int| 0 <= i < s.len() && s[i].id == id
}

/// The entry with the given id.
pub open spec fn entry_of(s: Seq<EntryModel>, id: Seq<char>) -> EntryModel {
    s[idx_of(s, id)]
}

/// No two entries share an id.
pub open spec fn unique_ids(s: Seq<EntryModel>) -> bool {
    forall|i: int, j: int| 0 <= i < s.len() && 0 <= j < s.len() && i != j ==> s[i].id != s[j].id
}

/// Every worktree's parent is a registered main entry.
pub open spec fn parents_ok(s: Seq<EntryModel>) -> bool {
    forall|i: int| 0 <= i < s.len() && #[trigger] s[i].kind is Worktree ==> has_id(
        s,
        s[i].kind->Worktree_parent_id,
    ) && entry_of(s, s[i].kind->Worktree_parent_id).kind is Main
}

/// The authoritative in-memory map of workspace entries.
pub struct Registry {
    pub entries: Vec<WorkspaceEntry>,
}

impl Registry {
    /// The ghost model: the entries in list order.
    pub open spec fn models(self) -> Seq<EntryModel> {
        self.entries.deep_view()
    }

    /// Well-formedness: unique ids; worktree parents registered, main, and
    /// never worktrees themselves.
    pub open spec fn wf(self) -> bool {
        unique_ids(self.models()) && parents_ok(self.models())
    }

    /// Whether a new entry may be inserted: its id is fresh, and a worktree
    /// entry points at a registered main parent.
    pub open spec fn accepts(self, e: EntryModel) -> bool {
        &&& !has_id(self.models(), e.id)
        &&& (e.kind is Worktree ==> has_id(self.models(), e.kind->Worktree_parent_id) && entry_of(
            self.models(),
            e.kind->Worktree_parent_id,
        ).kind is Main)
    }

    /// An empty registry.
    pub fn new() -> (r: Registry)
        ensures
            r.models() =~= Seq::<EntryModel>::empty(),
            r.wf(),
    {
        let r = Registry { entries: Vec::new() };
        proof {
            assert(r.models() =~= Seq::<EntryModel>::empty());
        }
        r
    }

    /// Finds the index of the entry with this id.
    pub fn find(&self, id: &String) -> (r: Option<usize>)
        ensures
            match r {
                Option::Some(i) => i < self.entries@.len() && self.models()[i as int].id == id@,
                Option::None => !has_id(self.models(), id@),
            },
    {
        let mut i: usize = 0;
        while i < self.entries.len()
            invariant
                i <= self.entries@.len(),
                forall|j: int| 0 <= j < i ==> self.models()[j].id != id@,
            decreases self.entries@.len() - i,
        {
            if self.entries[i].id.eq(id) {
                return Option::Some(i);
            }
            i += 1;
        }
        Option::None
    }

    /// Inserts a fresh entry at the end of the list.
    pub fn insert(&mut self, e: WorkspaceEntry)
        requires
            old(self).wf(),
            old(self).accepts(e@),
        ensures
            final(self).models() == old(self).models().push(e@),
            final(self).wf(),
    {
        self.entries.push(e);
        proof {
            let n = self.models();
            let o = old(self).models();
            assert(n =~= o.push(e@));
            assert(unique_ids(n)) by {
                assert forall|i: int, j: int|
                    0 <= i < n.len() && 0 <= j < n.len() && i != j implies n[i].id != n[j].id by {
                    if i < o.len() && j < o.len() {
                        assert(o[i].id != o[j].id);
                    } else if i < o.len() {
                        assert(!has_id(o, e@.id));
                        assert(o[i].id != e@.id);
                    } else {
                        assert(!has_id(o, e@.id));
                        assert(o[j].id != e@.id);
                    }
                }
            }
            assert(parents_ok(n)) by {
                assert forall|i: int| 0 <= i < n.len() && #[trigger] n[i].kind is Worktree
                    implies has_id(n, n[i].kind->Worktree_parent_id) && entry_of(
                    n,
                    n[i].kind->Worktree_parent_id,
                ).kind is Main by {
                    let pid = n[i].kind->Worktree_parent_id;
                    if i < o.len() {
                        assert(has_id(o, pid) && entry_of(o, pid).kind is Main);
                        let k = idx_of(o, pid);
                        assert(n[k].id == pid && n[k].kind is Main);
                        lemma_entry_of_known(n, pid, k);
                    } else {
                        assert(n[i] == e@);
                        assert(has_id(o, pid) && entry_of(o, pid).kind is Main);
                        let k = idx_of(o, pid);
                        assert(n[k].id == pid && n[k].kind is Main);
                        lemma_entry_of_known(n, pid, k);
                    }
                }
            }
        }
    }

    /// The child worktrees of the entry with this id, in registry order.
    pub open spec fn children_model(self, id: Seq<char>) -> Seq<EntryModel> {
        self.models().filter(child_pred(id))
    }

    /// Collects the child worktrees of the entry with this id: exactly the
    /// entries whose `parent_id` is this id, in registry order.
    pub fn children_of(&self, id: &String) -> (r: Vec<WorkspaceEntry>)
        ensures
            r.deep_view() == self.children_model(id@),
    {
        let ghost pred = child_pred(id@);
        let mut out: Vec<WorkspaceEntry> = Vec::new();
        let mut i: usize = 0;
        proof {
            reveal(Seq::filter);
            assert(self.models().take(0).filter(pred) =~= Seq::<EntryModel>::empty());
        }
        while i < self.entries.len()
            invariant
                i <= self.entries@.len(),
                pred == child_pred(id@),
                out.deep_view() == self.models().take(i as int).filter(pred),
            decreases self.entries@.len() - i,
        {
            let is_child = match &self.entries[i].kind {
                crate::types::WorkspaceKind::Worktree { parent_id, .. } => parent_id.eq(id),
                crate::types::WorkspaceKind::Main => false,
            };
            let ghost pre = out.deep_view();
            proof {
                assert(self.models().take(i + 1 as int) =~= self.models().take(i as int).push(
                    self.models()[i as int],
                ));
                self.models().take(i as int).lemma_filter_push(self.models()[i as int], pred);
                assert(is_child == pred(self.models()[i as int]));
            }
            if is_child {
                out.push(self.entries[i].clone());
                proof {
                    assert(out.deep_view() =~= pre.push(self.models()[i as int]));
                    assert(out.deep_view() =~= self.models().take(i + 1 as int).filter(pred));
                }
            } else {
                proof {
                    assert(out.deep_view() =~= self.models().take(i + 1 as int).filter(pred));
                }
            }
            i += 1;
        }
        proof {
            assert(self.models().take(self.entries@.len() as int) =~= self.models());
        }
        out
    }
}

/// Whether an entry is a child worktree of the entry with the given id.
pub open spec fn child_pred(id: Seq<char>) -> spec_fn(EntryModel) -> bool {
    |e: EntryModel| e.parent_id() == Option::Some(id)
}

/// If `s[k]` has the id, and ids are unique, then `entry_of(s, id)` is
/// `s[k]`.
pub proof fn lemma_entry_of_known(s: Seq<EntryModel>, id: Seq<char>, k: int)
    requires
        unique_ids(s),
        0 <= k < s.len(),
        s[k].id == id,
    ensures
        has_id(s, id),
        idx_of(s, id) == k,
        entry_of(s, id) == s[k],
{
    assert(has_id(s, id));
    let i = idx_of(s, id);
    assert(0 <= i < s.len() && s[i].id == id);
    if i != k {
        assert(s[i].id != s[k].id);
    }
}

} // verus!
