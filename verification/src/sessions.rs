//! The process session manager's bookkeeping: one live session token per
//! connected workspace.
//!
//! The core never launches or kills a process itself.  `install` replaces a
//! binding and hands the evicted token back — the caller terminates it
//! only after the new one is installed — and `take` removes a binding and
//! hands its token back for best-effort termination.

use vstd::prelude::*;

use crate::types::SessionHandle;

verus! {

/// Ghost model of one binding.
pub struct BindingModel {
    pub workspace_id: Seq<char>,
    pub handle: SessionHandle,
}

/// A workspace id bound to a live session token.
pub struct SessionBinding {
    pub workspace_id: String,
    pub handle: SessionHandle,
}

impl View for SessionBinding {
    type V = BindingModel;

    open spec fn view(&self) -> BindingModel {
        BindingModel { workspace_id: self.workspace_id@, handle: self.handle }
    }
}

impl DeepView for SessionBinding {
    type V = BindingModel;

    open spec fn deep_view(&self) -> BindingModel {
        self.view()
    }
}

/// Whether a binding for this workspace exists.
pub open spec fn bound(s: Seq<BindingModel>, id: Seq<char>) -> bool {
    exists|i: int| 0 <= i < s.len() && s[i].workspace_id == id
}

/// The handle bound to this workspace.
pub open spec fn handle_of(s: Seq<BindingModel>, id: Seq<char>) -> SessionHandle {
    s[choose|i: int| 0 <= i < s.len() && s[i].workspace_id == id].handle
}

/// No workspace has two bindings.
pub open spec fn unique_bindings(s: Seq<BindingModel>) -> bool {
    forall|i: int, j: int| 0 <= i < s.len() && 0 <= j < s.len() && i != j ==> s[i].workspace_id
        != s[j].workspace_id
}

/// The session map: workspace id to live session token.
pub struct SessionTable {
    pub items: Vec<SessionBinding>,
}

impl SessionTable {
    /// The ghost model.
    pub open spec fn models(self) -> Seq<BindingModel> {
        self.items.deep_view()
    }

    /// Well-formedness: at most one binding per workspace.
    pub open spec fn wf(self) -> bool {
        unique_bindings(self.models())
    }

    /// An empty table.
    pub fn new() -> (r: SessionTable)
        ensures
            r.models() =~= Seq::<BindingModel>::empty(),
            r.wf(),
    {
        let r = SessionTable { items: Vec::new() };
        proof {
            assert(r.models() =~= Seq::<BindingModel>::empty());
        }
        r
    }

    /// Finds the index of the binding for this workspace.
    fn find(&self, id: &String) -> (r: Option<usize>)
        ensures
            match r {
                Option::Some(i) => i < self.items@.len() && self.models()[i as int].workspace_id
                    == id@,
                Option::None => !bound(self.models(), id@),
            },
    {
        let mut i: usize = 0;
        while i < self.items.len()
            invariant
                i <= self.items@.len(),
                forall|j: int| 0 <= j < i ==> self.models()[j].workspace_id != id@,
            decreases self.items@.len() - i,
        {
            if self.items[i].workspace_id.eq(id) {
                return Option::Some(i);
            }
            i += 1;
        }
        Option::None
    }

    /// Whether this workspace is connected.
    pub fn is_connected(&self, id: &String) -> (r: bool)
        ensures
            r == bound(self.models(), id@),
    {
        match self.find(id) {
            Option::Some(_) => true,
            Option::None => false,
        }
    }

    /// Installs a session for this workspace, returning the binding it
    /// evicts (which the caller must terminate — after this call, so the
    /// new session is live before the old one dies).
    pub fn install(&mut self, id: &String, handle: SessionHandle) -> (evicted: Option<
        SessionHandle,
    >)
        requires
            old(self).wf(),
        ensures
            final(self).wf(),
            bound(final(self).models(), id@),
            handle_of(final(self).models(), id@) == handle,
            forall|x: Seq<char>| x != id@ ==> bound(final(self).models(), x) == bound(
                old(self).models(),
                x,
            ),
            forall|x: Seq<char>| x != id@ && bound(old(self).models(), x) ==> handle_of(
                final(self).models(),
                x,
            ) == handle_of(old(self).models(), x),
            evicted == if bound(old(self).models(), id@) {
                Option::Some(handle_of(old(self).models(), id@))
            } else {
                Option::<SessionHandle>::None
            },
    {
        let found = self.find(id);
        match found {
            Option::Some(i) => {
                let prior = self.items[i].handle;
                let ghost o = self.models();
                self.items[i] = SessionBinding { workspace_id: id.clone(), handle };
                proof {
                    let n = self.models();
                    assert(n =~= o.update(i as int, BindingModel { workspace_id: id@, handle }));
                    assert(prior == handle_of(o, id@)) by {
                        lemma_bound_at(o, id@, i as int);
                    }
                    lemma_bound_at(n, id@, i as int);
                    assert forall|x: Seq<char>| x != id@ implies bound(n, x) == bound(o, x) by {
                        lemma_update_same_other(o, n, i as int, id@, x);
                    }
                    assert forall|x: Seq<char>| x != id@ && bound(o, x) implies handle_of(n, x)
                        == handle_of(o, x) by {
                        lemma_update_same_other(o, n, i as int, id@, x);
                    }
                }
                Option::Some(prior)
            },
            Option::None => {
                let ghost o = self.models();
                self.items.push(SessionBinding { workspace_id: id.clone(), handle });
                proof {
                    let n = self.models();
                    assert(n =~= o.push(BindingModel { workspace_id: id@, handle }));
                    lemma_bound_at(n, id@, o.len() as int);
                    assert forall|x: Seq<char>| x != id@ implies bound(n, x) == bound(o, x) by {
                        lemma_push_same_other(o, n, id@, x);
                    }
                    assert forall|x: Seq<char>| x != id@ && bound(o, x) implies handle_of(n, x)
                        == handle_of(o, x) by {
                        lemma_push_same_other(o, n, id@, x);
                    }
                }
                Option::None
            },
        }
    }

    /// Removes the binding for this workspace, returning its token for
    /// best-effort termination.
    pub fn take(&mut self, id: &String) -> (r: Option<SessionHandle>)
        requires
            old(self).wf(),
        ensures
            final(self).wf(),
            !bound(final(self).models(), id@),
            forall|x: Seq<char>| x != id@ ==> bound(final(self).models(), x) == bound(
                old(self).models(),
                x,
            ),
            forall|x: Seq<char>| x != id@ && bound(old(self).models(), x) ==> handle_of(
                final(self).models(),
                x,
            ) == handle_of(old(self).models(), x),
            r == if bound(old(self).models(), id@) {
                Option::Some(handle_of(old(self).models(), id@))
            } else {
                Option::<SessionHandle>::None
            },
    {
        let found = self.find(id);
        match found {
            Option::Some(i) => {
                let prior = self.items[i].handle;
                let ghost o = self.models();
                let removed = self.items.remove(i);
                proof {
                    let n = self.models();
                    assert(n =~= o.remove(i as int));
                    assert(prior == handle_of(o, id@)) by {
                        lemma_bound_at(o, id@, i as int);
                    }
                    assert(!bound(n, id@)) by {
                        if bound(n, id@) {
                            let j = choose|j: int| 0 <= j < n.len() && n[j].workspace_id == id@;
                            if j < i {
                                assert(o[j].workspace_id == id@);
                                assert(o[i as int].workspace_id == id@);
                            } else {
                                assert(o[j + 1].workspace_id == id@);
                                assert(o[i as int].workspace_id == id@);
                            }
                        }
                    }
                    assert forall|x: Seq<char>| x != id@ implies bound(n, x) == bound(o, x) by {
                        lemma_remove_same_other(o, n, i as int, id@, x);
                    }
                    assert forall|x: Seq<char>| x != id@ && bound(o, x) implies handle_of(n, x)
                        == handle_of(o, x) by {
                        lemma_remove_same_other(o, n, i as int, id@, x);
                    }
                }
                Option::Some(prior)
            },
            Option::None => Option::None,
        }
    }
}

/// With unique bindings, the binding at a known index is the one looked
/// up.
proof fn lemma_bound_at(s: Seq<BindingModel>, id: Seq<char>, k: int)
    requires
        unique_bindings(s),
        0 <= k < s.len(),
        s[k].workspace_id == id,
    ensures
        bound(s, id),
        handle_of(s, id) == s[k].handle,
{
    assert(bound(s, id));
    let i = choose|i: int| 0 <= i < s.len() && s[i].workspace_id == id;
    if i != k {
        assert(s[i].workspace_id != s[k].workspace_id);
    }
}

/// An update at the index bound to `id` leaves every other workspace's
/// binding as it was.
proof fn lemma_update_same_other(
    o: Seq<BindingModel>,
    n: Seq<BindingModel>,
    i: int,
    id: Seq<char>,
    x: Seq<char>,
)
    requires
        unique_bindings(o),
        0 <= i < o.len(),
        o[i].workspace_id == id,
        n.len() == o.len(),
        n[i].workspace_id == id,
        forall|j: int| 0 <= j < o.len() && j != i ==> n[j] == o[j],
        x != id,
    ensures
        unique_bindings(n),
        bound(n, x) == bound(o, x),
        bound(o, x) ==> handle_of(n, x) == handle_of(o, x),
{
    assert forall|a: int, b: int|
        0 <= a < n.len() && 0 <= b < n.len() && a != b implies n[a].workspace_id
        != n[b].workspace_id by {
        assert(n[a].workspace_id == o[a].workspace_id || a == i);
        assert(n[b].workspace_id == o[b].workspace_id || b == i);
    }
    if bound(o, x) {
        let j = choose|j: int| 0 <= j < o.len() && o[j].workspace_id == x;
        assert(j != i);
        assert(n[j].workspace_id == x);
        lemma_bound_at(n, x, j);
        lemma_bound_at(o, x, j);
    }
    if bound(n, x) {
        let j = choose|j: int| 0 <= j < n.len() && n[j].workspace_id == x;
        assert(j != i);
        assert(o[j].workspace_id == x);
    }
}

/// A push of a binding for `id` leaves every other workspace's binding as
/// it was.
proof fn lemma_push_same_other(
    o: Seq<BindingModel>,
    n: Seq<BindingModel>,
    id: Seq<char>,
    x: Seq<char>,
)
    requires
        unique_bindings(o),
        !bound(o, id),
        n.len() == o.len() + 1,
        n[n.len() - 1].workspace_id == id,
        forall|j: int| 0 <= j < o.len() ==> n[j] == o[j],
        x != id,
    ensures
        unique_bindings(n),
        bound(n, x) == bound(o, x),
        bound(o, x) ==> handle_of(n, x) == handle_of(o, x),
{
    assert forall|a: int, b: int|
        0 <= a < n.len() && 0 <= b < n.len() && a != b implies n[a].workspace_id
        != n[b].workspace_id by {
        if a < o.len() && b < o.len() {
            assert(o[a].workspace_id != o[b].workspace_id);
        } else if a < o.len() {
            assert(o[a].workspace_id != id);
        } else {
            assert(o[b].workspace_id != id);
        }
    }
    if bound(o, x) {
        let j = choose|j: int| 0 <= j < o.len() && o[j].workspace_id == x;
        lemma_bound_at(n, x, j);
        lemma_bound_at(o, x, j);
    }
    if bound(n, x) {
        let j = choose|j: int| 0 <= j < n.len() && n[j].workspace_id == x;
        assert(j < o.len());
        assert(o[j].workspace_id == x);
    }
}

/// Removing the binding at the index bound to `id` leaves every other
/// workspace's binding as it was.
proof fn lemma_remove_same_other(
    o: Seq<BindingModel>,
    n: Seq<BindingModel>,
    i: int,
    id: Seq<char>,
    x: Seq<char>,
)
    requires
        unique_bindings(o),
        0 <= i < o.len(),
        o[i].workspace_id == id,
        n == o.remove(i),
        x != id,
    ensures
        unique_bindings(n),
        bound(n, x) == bound(o, x),
        bound(o, x) ==> handle_of(n, x) == handle_of(o, x),
{
    assert forall|a: int, b: int|
        0 <= a < n.len() && 0 <= b < n.len() && a != b implies n[a].workspace_id
        != n[b].workspace_id by {
        let a2 = if a < i { a } else { a + 1 };
        let b2 = if b < i { b } else { b + 1 };
        assert(n[a] == o[a2] && n[b] == o[b2]);
        assert(o[a2].workspace_id != o[b2].workspace_id);
    }
    if bound(o, x) {
        let j = choose|j: int| 0 <= j < o.len() && o[j].workspace_id == x;
        assert(j != i);
        let j2 = if j < i { j } else { j - 1 };
        assert(n[j2] == o[j]);
        lemma_bound_at(n, x, j2);
        lemma_bound_at(o, x, j);
    }
    if bound(n, x) {
        let j = choose|j: int| 0 <= j < n.len() && n[j].workspace_id == x;
        let j2 = if j < i { j } else { j + 1 };
        assert(o[j2] == n[j]);
        assert(bound(o, x));
    }
}

} // verus!
