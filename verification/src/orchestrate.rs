//! The orchestration core: registry + sessions + persisted-list mirror.
//!
//! Every boundary operation is split into a *plan* step — pure decisions
//! over the current state, producing the exact git argument vectors,
//! spawn plans and entry values the operation needs — and a *commit* step
//! that takes the outcomes of the external effects (process spawns, the
//! durable write of the entry list) as plain values and performs the
//! in-memory mutation with its rollback rules.  The embedding application
//! performs the effects between the two steps and never decides anything.
//!
//! The `store` field mirrors what the persisted entry list holds after the
//! last successful write; the well-formedness invariant pins it to the
//! registry, so the persisted id set can never drift from the in-memory
//! one past an operation's completion.

use vstd::prelude::*;

use crate::cascade::{effective_args, effective_home, opt_entry_model, resolve_codex_args, resolve_codex_home};
use crate::errors::{Invalid, Missing, WrongKind, WsError};
use crate::naming::basename_spec;
use crate::registry::{entry_of, has_id, idx_of, Registry};
use crate::sessions::{bound, handle_of, SessionTable};
use crate::types::{
    AppSettings, AppSettingsModel, EntryModel, KindModel, SessionHandle, SpawnPlan, SpawnPlanModel,
    WorkspaceEntry, WorkspaceInfo, WorkspaceSettings,
};

verus! {

/// The binary launched for an entry: its own override, else the global
/// default, else `codex` on the search path.
pub open spec fn program_spec(entry: EntryModel, app: AppSettingsModel) -> Seq<char> {
    if entry.codex_bin is Some {
        entry.codex_bin->0
    } else if app.codex_bin is Some {
        app.codex_bin->0
    } else {
        "codex"@
    }
}

/// The launch plan for an entry under the settings cascade.
pub open spec fn spawn_model(
    entry: EntryModel,
    parent: Option<EntryModel>,
    app: AppSettingsModel,
) -> SpawnPlanModel {
    SpawnPlanModel {
        workspace_id: entry.id,
        program: program_spec(entry, app),
        args: effective_args(entry, parent, app),
        home: effective_home(entry, parent, app.home_root),
    }
}

/// The orchestration core's whole state.
pub struct Core {
    pub registry: Registry,
    pub sessions: SessionTable,
    /// Mirror of the persisted entry list after the last successful write.
    pub store: Vec<WorkspaceEntry>,
    pub app_settings: AppSettings,
}

impl Core {
    /// Well-formedness: registry and session table well-formed, every
    /// session belongs to a registered entry, and the persisted list holds
    /// exactly the registry's entries.
    pub open spec fn wf(self) -> bool {
        &&& self.registry.wf()
        &&& self.sessions.wf()
        &&& forall|x: Seq<char>| #[trigger] bound(self.sessions.models(), x) ==> has_id(
            self.registry.models(),
            x,
        )
        &&& self.store.deep_view() == self.registry.models()
    }

    /// A core with no workspaces, no sessions, and an empty persisted
    /// list.
    pub fn new(app_settings: AppSettings) -> (r: Core)
        ensures
            r.wf(),
            r.registry.models() =~= Seq::<EntryModel>::empty(),
            r.sessions.models() =~= Seq::<crate::sessions::BindingModel>::empty(),
            r.app_settings@ == app_settings@,
    {
        let r = Core {
            registry: Registry::new(),
            sessions: SessionTable::new(),
            store: Vec::new(),
            app_settings,
        };
        proof {
            assert(r.store.deep_view() =~= r.registry.models());
        }
        r
    }

    /// Rebuilds a core from a persisted entry list, validating the
    /// registry invariant the contracts rest on: a list that repeats an
    /// id, or whose worktree entries point at a missing or non-main
    /// parent, is rejected rather than trusted.  Sessions start empty
    /// (nothing is connected after a restart), and the accepted list is
    /// taken as the current durable state.
    #[verifier::loop_isolation(false)]
    pub fn from_persisted(entries: Vec<WorkspaceEntry>, app_settings: AppSettings) -> (r: Result<
        Core,
        WsError,
    >)
        ensures
            crate::registry::unique_ids(entries.deep_view()) && crate::registry::parents_ok(
                entries.deep_view(),
            ) ==> (r matches Result::Ok(c) && c.wf() && c.registry.models() == entries.deep_view()
                && c.sessions.models() =~= Seq::<crate::sessions::BindingModel>::empty()
                && c.app_settings@ == app_settings@),
            !(crate::registry::unique_ids(entries.deep_view()) && crate::registry::parents_ok(
                entries.deep_view(),
            )) ==> (r matches Result::Err(e) && e matches WsError::Validation(
                Invalid::MalformedList,
            )),
    {
        let ghost dv = entries.deep_view();
        let n = entries.len();
        let mut i: usize = 0;
        while i < n
            invariant
                i <= n,
                n == dv.len(),
                dv == entries.deep_view(),
                forall|a: int, b: int| 0 <= a < i && a < b < n ==> dv[a].id != dv[b].id,
            decreases n - i,
        {
            let mut j: usize = i + 1;
            while j < n
                invariant
                    i < j <= n,
                    n == dv.len(),
                    dv == entries.deep_view(),
                    forall|b: int| i < b < j ==> dv[i as int].id != dv[b].id,
                decreases n - j,
            {
                if entries[i].id.eq(&entries[j].id) {
                    proof {
                        assert(dv[i as int].id == dv[j as int].id);
                        assert(!crate::registry::unique_ids(dv));
                    }
                    return Result::Err(WsError::Validation(Invalid::MalformedList));
                }
                j += 1;
            }
            i += 1;
        }
        proof {
            assert(crate::registry::unique_ids(dv)) by {
                assert forall|a: int, b: int|
                    0 <= a < dv.len() && 0 <= b < dv.len() && a != b implies dv[a].id
                    != dv[b].id by {
                    if a < b {
                    } else {
                        assert(dv[b].id != dv[a].id);
                    }
                }
            }
        }
        let probe = Registry { entries };
        let mut k: usize = 0;
        while k < probe.entries.len()
            invariant
                k <= probe.entries@.len(),
                probe.models() == dv,
                crate::registry::unique_ids(dv),
                forall|a: int| 0 <= a < k && #[trigger] dv[a].kind is Worktree ==> has_id(
                    dv,
                    dv[a].kind->Worktree_parent_id,
                ) && entry_of(dv, dv[a].kind->Worktree_parent_id).kind is Main,
            decreases probe.entries@.len() - k,
        {
            match &probe.entries[k].kind {
                crate::types::WorkspaceKind::Worktree { parent_id, .. } => {
                    let pid = parent_id.clone();
                    match probe.find(&pid) {
                        Option::Some(pj) => {
                            proof {
                                crate::registry::lemma_entry_of_known(dv, pid@, pj as int);
                            }
                            if probe.entries[pj].kind.is_worktree() {
                                proof {
                                    assert(dv[k as int].kind is Worktree);
                                    assert(entry_of(
                                        dv,
                                        dv[k as int].kind->Worktree_parent_id,
                                    ).kind is Worktree);
                                    assert(!crate::registry::parents_ok(dv));
                                }
                                return Result::Err(WsError::Validation(Invalid::MalformedList));
                            }
                        },
                        Option::None => {
                            proof {
                                assert(dv[k as int].kind is Worktree);
                                assert(!has_id(dv, dv[k as int].kind->Worktree_parent_id));
                                assert(!crate::registry::parents_ok(dv));
                            }
                            return Result::Err(WsError::Validation(Invalid::MalformedList));
                        },
                    }
                },
                crate::types::WorkspaceKind::Main => {},
            }
            k += 1;
        }
        let store = crate::types::clone_entries(&probe.entries);
        let c = Core { registry: probe, sessions: SessionTable::new(), store, app_settings };
        proof {
            assert(c.store.deep_view() =~= c.registry.models());
            assert forall|x: Seq<char>| #[trigger] bound(c.sessions.models(), x) implies has_id(
                c.registry.models(),
                x,
            ) by {}
        }
        Result::Ok(c)
    }

    /// The root path of a registered workspace, for file listing and
    /// reading.
    pub fn workspace_root(&self, id: &String) -> (r: Result<String, WsError>)
        requires
            self.wf(),
        ensures
            match r {
                Result::Ok(p) => has_id(self.registry.models(), id@) && p@ == entry_of(
                    self.registry.models(),
                    id@,
                ).path,
                Result::Err(e) => !has_id(self.registry.models(), id@) && e matches
                    WsError::NotFound(Missing::Workspace),
            },
    {
        match self.registry.find(id) {
            Option::Some(i) => {
                proof {
                    crate::registry::lemma_entry_of_known(
                        self.registry.models(),
                        id@,
                        i as int,
                    );
                }
                Result::Ok(self.registry.entries[i].path.clone())
            },
            Option::None => Result::Err(WsError::NotFound(Missing::Workspace)),
        }
    }

    /// Builds the launch plan for an entry, resolving the cascade against
    /// the entry's parent (if it is a worktree) and the global defaults.
    fn build_spawn_plan(&self, entry: &WorkspaceEntry, parent: Option<&WorkspaceEntry>) -> (r:
        SpawnPlan)
        ensures
            r@ == spawn_model(entry@, opt_entry_model(parent), self.app_settings@),
    {
        let program = match &entry.codex_bin {
            Option::Some(b) => b.clone(),
            Option::None => match &self.app_settings.codex_bin {
                Option::Some(b) => b.clone(),
                Option::None => String::from_str("codex"),
            },
        };
        let args = resolve_codex_args(entry, parent, &self.app_settings);
        let home = resolve_codex_home(entry, parent, &self.app_settings.home_root);
        SpawnPlan { workspace_id: entry.id.clone(), program, args, home }
    }

    /// Finds the parent entry of a worktree entry, if registered.
    fn find_parent_of(&self, entry: &WorkspaceEntry) -> (r: Option<usize>)
        ensures
            match r {
                Option::Some(i) => i < self.registry.entries@.len() && entry@.kind is Worktree
                    && self.registry.models()[i as int].id == entry@.kind->Worktree_parent_id,
                Option::None => entry@.kind is Worktree ==> !has_id(
                    self.registry.models(),
                    entry@.kind->Worktree_parent_id,
                ),
            },
    {
        match &entry.kind {
            crate::types::WorkspaceKind::Worktree { parent_id, .. } => {
                let pid = parent_id.clone();
                self.registry.find(&pid)
            },
            crate::types::WorkspaceKind::Main => Option::None,
        }
    }

    /// Validates an `add_workspace` request against a chosen fresh id and
    /// produces the entry and its launch plan.  The path must name a
    /// directory (the caller checks the filesystem and reports the
    /// answer).
    pub fn plan_add_workspace_with_id(
        &self,
        path: &String,
        codex_bin: Option<String>,
        path_is_dir: bool,
        new_id: String,
    ) -> (r: Result<(WorkspaceEntry, SpawnPlan), WsError>)
        ensures
            !path_is_dir ==> r matches Result::Err(WsError::Validation(Invalid::NotAFolder)),
            path_is_dir && has_id(self.registry.models(), new_id@) ==> r matches Result::Err(
                WsError::Validation(Invalid::IdTaken),
            ),
            path_is_dir && !has_id(self.registry.models(), new_id@) ==> (r matches Result::Ok(p)
                && p.0@ == (EntryModel {
                id: new_id@,
                name: basename_spec(path@),
                path: path@,
                codex_bin: crate::types::opt_view(codex_bin),
                kind: KindModel::Main,
                settings: WorkspaceSettings::empty_model(),
            }) && p.1@ == spawn_model(p.0@, Option::None, self.app_settings@)),
    {
        if !path_is_dir {
            return Result::Err(WsError::Validation(Invalid::NotAFolder));
        }
        match self.registry.find(&new_id) {
            Option::Some(_) => Result::Err(WsError::Validation(Invalid::IdTaken)),
            Option::None => {
                let name = crate::naming::basename_of(path);
                let entry = WorkspaceEntry {
                    id: new_id,
                    name,
                    path: path.clone(),
                    codex_bin,
                    kind: crate::types::WorkspaceKind::Main,
                    settings: WorkspaceSettings::none(),
                };
                let plan = self.build_spawn_plan(&entry, Option::None);
                Result::Ok((entry, plan))
            },
        }
    }

    /// Validates an `add_workspace` request, drawing a fresh workspace id.
    /// Whatever id the generator returned: a non-directory path is
    /// rejected; otherwise the request fails only if the drawn id
    /// collides, and a success carries an entry whose id is fresh and
    /// whose remaining fields are exactly the request's.
    pub fn plan_add_workspace(
        &self,
        path: &String,
        codex_bin: Option<String>,
        path_is_dir: bool,
    ) -> (r: Result<(WorkspaceEntry, SpawnPlan), WsError>)
        ensures
            !path_is_dir ==> r matches Result::Err(WsError::Validation(Invalid::NotAFolder)),
            path_is_dir ==> match r {
                Result::Ok(p) => !has_id(self.registry.models(), p.0@.id) && p.0@.name
                    == basename_spec(path@) && p.0@.path == path@ && p.0@.codex_bin
                    == crate::types::opt_view(codex_bin) && p.0@.kind is Main && p.0@.settings
                    == WorkspaceSettings::empty_model() && p.1@ == spawn_model(
                    p.0@,
                    Option::None,
                    self.app_settings@,
                ),
                Result::Err(e) => e matches WsError::Validation(Invalid::IdTaken),
            },
    {
        let new_id = fresh_uuid_string();
        self.plan_add_workspace_with_id(path, codex_bin, path_is_dir, new_id)
    }

    /// Installs a freshly planned entry once its session spawn and the
    /// durable write of the new entry list have been attempted.
    ///
    /// A failed spawn fails the operation with the spawn error and leaves
    /// the state untouched.  A failed write fails it with the write error,
    /// leaves the state untouched, and hands back the just-spawned session
    /// token for termination, so the registry never reports an entry the
    /// disk does not hold.  On success the entry is registered, persisted
    /// and connected.
    pub fn commit_add(
        &mut self,
        entry: WorkspaceEntry,
        spawn: Result<SessionHandle, String>,
        persist: Result<(), String>,
    ) -> (r: (Result<WorkspaceInfo, WsError>, Option<SessionHandle>))
        requires
            old(self).wf(),
            old(self).registry.accepts(entry@),
        ensures
            final(self).wf(),
            final(self).app_settings@ == old(self).app_settings@,
            spawn matches Result::Err(m) ==> *final(self) == *old(self) && r.1 is None && (
            r.0 matches Result::Err(e) && e matches WsError::Spawn(m2) && m2@ == m@),
            spawn matches Result::Ok(h) ==> persist matches Result::Err(m) ==> *final(self)
                == *old(self) && r.1 == Option::Some(h) && (r.0 matches Result::Err(e) && e matches
                WsError::Filesystem(m2) && m2@ == m@),
            spawn matches Result::Ok(h) ==> persist is Ok ==> {
                &&& final(self).registry.models() == old(self).registry.models().push(entry@)
                &&& bound(final(self).sessions.models(), entry@.id)
                &&& handle_of(final(self).sessions.models(), entry@.id) == h
                &&& forall|x: Seq<char>| x != entry@.id ==> bound(final(self).sessions.models(), x)
                    == bound(old(self).sessions.models(), x)
                &&& r.1 is None
                &&& (r.0 matches Result::Ok(info) && info@ == WorkspaceInfo::of_entry(
                    entry@,
                    true,
                ))
            },
    {
        let handle = match spawn {
            Result::Ok(h) => h,
            Result::Err(m) => {
                return (Result::Err(WsError::Spawn(m)), Option::None);
            },
        };
        if let Result::Err(m) = persist {
            return (Result::Err(WsError::Filesystem(m)), Option::Some(handle));
        }
        let info = WorkspaceInfo::from_entry(&entry, true);
        let stored = entry.clone();
        let id = entry.id.clone();
        self.registry.insert(entry);
        self.store.push(stored);
        let evicted = self.sessions.install(&id, handle);
        proof {
            assert(self.store.deep_view() =~= self.registry.models());
            assert(evicted is None);
            assert forall|x: Seq<char>| #[trigger] bound(self.sessions.models(), x) implies has_id(
                self.registry.models(),
                x,
            ) by {
                if x != id@ {
                    assert(bound(old(self).sessions.models(), x));
                    assert(has_id(old(self).registry.models(), x));
                    let j = idx_of(old(self).registry.models(), x);
                    assert(self.registry.models()[j].id == x);
                } else {
                    assert(self.registry.models().last().id == id@);
                }
            }
        }
        (Result::Ok(info), Option::None)
    }

    /// Plans connecting an existing entry: the launch plan under the
    /// cascade, with the parent's overrides where the entry is a worktree.
    pub fn plan_connect(&self, id: &String) -> (r: Result<SpawnPlan, WsError>)
        requires
            self.wf(),
        ensures
            match r {
                Result::Ok(sp) => has_id(self.registry.models(), id@) && {
                    let e = entry_of(self.registry.models(), id@);
                    sp@ == spawn_model(
                        e,
                        if e.kind is Worktree && has_id(
                            self.registry.models(),
                            e.kind->Worktree_parent_id,
                        ) {
                            Option::Some(
                                entry_of(self.registry.models(), e.kind->Worktree_parent_id),
                            )
                        } else {
                            Option::None
                        },
                        self.app_settings@,
                    )
                },
                Result::Err(e) => !has_id(self.registry.models(), id@) && e matches
                    WsError::NotFound(Missing::Workspace),
            },
    {
        let i = match self.registry.find(id) {
            Option::Some(i) => i,
            Option::None => {
                return Result::Err(WsError::NotFound(Missing::Workspace));
            },
        };
        proof {
            crate::registry::lemma_entry_of_known(self.registry.models(), id@, i as int);
        }
        let entry = self.registry.entries[i].clone();
        let plan = match self.find_parent_of(&entry) {
            Option::Some(p) => {
                proof {
                    crate::registry::lemma_entry_of_known(
                        self.registry.models(),
                        entry@.kind->Worktree_parent_id,
                        p as int,
                    );
                }
                let parent = self.registry.entries[p].clone();
                self.build_spawn_plan(&entry, Option::Some(&parent))
            },
            Option::None => self.build_spawn_plan(&entry, Option::None),
        };
        Result::Ok(plan)
    }

    /// Installs the session spawned for `connect_workspace`.  The new
    /// session is installed before the evicted one (if any) is handed back
    /// for termination, so there is no window with zero live sessions.
    pub fn commit_connect(&mut self, id: &String, spawn: Result<SessionHandle, String>) -> (r: (
        Result<(), WsError>,
        Option<SessionHandle>,
    ))
        requires
            old(self).wf(),
            has_id(old(self).registry.models(), id@),
        ensures
            final(self).wf(),
            final(self).registry.models() == old(self).registry.models(),
            final(self).app_settings@ == old(self).app_settings@,
            spawn matches Result::Err(m) ==> *final(self) == *old(self) && r.1 is None && (
            r.0 matches Result::Err(e) && e matches WsError::Spawn(m2) && m2@ == m@),
            spawn matches Result::Ok(h) ==> {
                &&& r.0 is Ok
                &&& bound(final(self).sessions.models(), id@)
                &&& handle_of(final(self).sessions.models(), id@) == h
                &&& forall|x: Seq<char>| x != id@ ==> bound(final(self).sessions.models(), x)
                    == bound(old(self).sessions.models(), x)
                &&& r.1 == if bound(old(self).sessions.models(), id@) {
                    Option::Some(handle_of(old(self).sessions.models(), id@))
                } else {
                    Option::<SessionHandle>::None
                }
            },
    {
        let handle = match spawn {
            Result::Ok(h) => h,
            Result::Err(m) => {
                return (Result::Err(WsError::Spawn(m)), Option::None);
            },
        };
        let evicted = self.sessions.install(id, handle);
        proof {
            assert forall|x: Seq<char>| #[trigger] bound(self.sessions.models(), x) implies has_id(
                self.registry.models(),
                x,
            ) by {
                if x != id@ {
                    assert(bound(old(self).sessions.models(), x));
                }
            }
        }
        (Result::Ok(()), evicted)
    }
}

/// Whether removing the entry with id `target` removes entry `e`: the
/// entry itself, and every child worktree whose `parent_id` is `target`.
pub open spec fn removed_by(target: Seq<char>, e: EntryModel) -> bool {
    e.id == target || e.parent_id() == Option::Some(target)
}

/// Everything the application must do to remove a main workspace: kill
/// the child sessions, run `git worktree remove` per child (falling back
/// to a plain directory removal when git reports the worktree already
/// missing), prune, kill the entry's own session, then commit.
pub struct RemovePlan {
    /// The entry being removed.
    pub entry: WorkspaceEntry,
    /// Its child worktrees, in registry order.
    pub children: Vec<WorkspaceEntry>,
    /// One `git worktree remove --force <path>` per child, same order.
    pub remove_cmds: Vec<Vec<String>>,
    /// `git worktree prune --expire now`, run best-effort afterwards.
    pub prune_cmd: Vec<String>,
}

impl Core {
    /// Validates `remove_workspace` and lists the child worktrees with
    /// the git commands that remove them.
    pub fn plan_remove_workspace(&self, id: &String) -> (r: Result<RemovePlan, WsError>)
        requires
            self.wf(),
        ensures
            !has_id(self.registry.models(), id@) ==> (r matches Result::Err(e) && e matches
                WsError::NotFound(Missing::Workspace)),
            has_id(self.registry.models(), id@) && entry_of(self.registry.models(), id@).kind
                is Worktree ==> (r matches Result::Err(e) && e matches WsError::InvalidOperation(
                WrongKind::WorkspaceIsWorktree,
            )),
            has_id(self.registry.models(), id@) && entry_of(self.registry.models(), id@).kind
                is Main ==> (r matches Result::Ok(p) && {
                &&& p.entry@ == entry_of(self.registry.models(), id@)
                &&& p.children.deep_view() == self.registry.children_model(id@)
                &&& p.remove_cmds.deep_view().len() == p.children.deep_view().len()
                &&& forall|k: int| 0 <= k < p.remove_cmds.deep_view().len()
                    ==> #[trigger] p.remove_cmds.deep_view()[k] =~= seq![
                    "worktree"@,
                    "remove"@,
                    "--force"@,
                    p.children.deep_view()[k].path,
                ]
                &&& p.prune_cmd.deep_view() =~= seq!["worktree"@, "prune"@, "--expire"@, "now"@]
            }),
    {
        let i = match self.registry.find(id) {
            Option::Some(i) => i,
            Option::None => {
                return Result::Err(WsError::NotFound(Missing::Workspace));
            },
        };
        proof {
            crate::registry::lemma_entry_of_known(self.registry.models(), id@, i as int);
        }
        let entry = self.registry.entries[i].clone();
        if entry.kind.is_worktree() {
            return Result::Err(WsError::InvalidOperation(WrongKind::WorkspaceIsWorktree));
        }
        let children = self.registry.children_of(id);
        let mut remove_cmds: Vec<Vec<String>> = Vec::new();
        let mut k: usize = 0;
        while k < children.len()
            invariant
                k <= children@.len(),
                remove_cmds.deep_view().len() == k,
                forall|j: int| 0 <= j < k ==> #[trigger] remove_cmds.deep_view()[j] =~= seq![
                    "worktree"@,
                    "remove"@,
                    "--force"@,
                    children.deep_view()[j].path,
                ],
            decreases children@.len() - k,
        {
            let ghost pre = remove_cmds.deep_view();
            let cmd = crate::gitcmd::worktree_remove_args(&children[k].path);
            remove_cmds.push(cmd);
            proof {
                assert(remove_cmds.deep_view() =~= pre.push(
                    seq!["worktree"@, "remove"@, "--force"@, children.deep_view()[k as int].path],
                ));
            }
            k += 1;
        }
        Result::Ok(
            RemovePlan {
                entry,
                children,
                remove_cmds,
                prune_cmd: crate::gitcmd::worktree_prune_args(),
            },
        )
    }

    /// Validates `remove_worktree` and produces the git commands that
    /// remove the single worktree.
    pub fn plan_remove_worktree(&self, id: &String) -> (r: Result<RemovePlan, WsError>)
        requires
            self.wf(),
        ensures
            !has_id(self.registry.models(), id@) ==> (r matches Result::Err(e) && e matches
                WsError::NotFound(Missing::Workspace)),
            has_id(self.registry.models(), id@) && entry_of(self.registry.models(), id@).kind
                is Main ==> (r matches Result::Err(e) && e matches WsError::InvalidOperation(
                WrongKind::NotAWorktree,
            )),
            has_id(self.registry.models(), id@) && entry_of(self.registry.models(), id@).kind
                is Worktree ==> (r matches Result::Ok(p) && {
                &&& p.entry@ == entry_of(self.registry.models(), id@)
                &&& p.remove_cmds.deep_view().len() == 1
                &&& p.remove_cmds.deep_view()[0] =~= seq![
                    "worktree"@,
                    "remove"@,
                    "--force"@,
                    entry_of(self.registry.models(), id@).path,
                ]
                &&& p.prune_cmd.deep_view() =~= seq!["worktree"@, "prune"@, "--expire"@, "now"@]
            }),
    {
        let i = match self.registry.find(id) {
            Option::Some(i) => i,
            Option::None => {
                return Result::Err(WsError::NotFound(Missing::Workspace));
            },
        };
        proof {
            crate::registry::lemma_entry_of_known(self.registry.models(), id@, i as int);
        }
        let entry = self.registry.entries[i].clone();
        if !entry.kind.is_worktree() {
            return Result::Err(WsError::InvalidOperation(WrongKind::NotAWorktree));
        }
        let mut remove_cmds: Vec<Vec<String>> = Vec::new();
        let cmd = crate::gitcmd::worktree_remove_args(&entry.path);
        remove_cmds.push(cmd);
        proof {
            assert(remove_cmds.deep_view() =~= seq![
                seq!["worktree"@, "remove"@, "--force"@, entry@.path],
            ]);
        }
        Result::Ok(
            RemovePlan {
                children: Vec::new(),
                entry,
                remove_cmds,
                prune_cmd: crate::gitcmd::worktree_prune_args(),
            },
        )
    }

    /// Removes the entry with this id together with every child worktree
    /// pointing at it, once the durable write of the shrunken list has
    /// been attempted.  A failed write leaves the state untouched, so the
    /// registry never drops an entry the disk still holds.  On success no
    /// entry with this id — and none whose `parent_id` is this id — is
    /// left, whatever became of the individual git removals; the sessions
    /// of removed entries are unbound and their tokens handed back for
    /// termination.
    pub fn commit_remove(&mut self, id: &String, persist: Result<(), String>) -> (r: (
        Result<(), WsError>,
        Vec<SessionHandle>,
    ))
        requires
            old(self).wf(),
            has_id(old(self).registry.models(), id@),
        ensures
            final(self).wf(),
            final(self).app_settings@ == old(self).app_settings@,
            persist matches Result::Err(m) ==> *final(self) == *old(self) && r.1@.len() == 0 && (
            r.0 matches Result::Err(e) && e matches WsError::Filesystem(m2) && m2@ == m@),
            persist is Ok ==> {
                &&& r.0 is Ok
                &&& forall|i: int| 0 <= i < final(self).registry.models().len() ==> !removed_by(
                    id@,
                    #[trigger] final(self).registry.models()[i],
                )
                &&& forall|i: int| 0 <= i < old(self).registry.models().len() && !removed_by(
                    id@,
                    #[trigger] old(self).registry.models()[i],
                ) ==> final(self).registry.models().contains(old(self).registry.models()[i])
                &&& forall|i: int| 0 <= i < final(self).registry.models().len() ==> old(
                    self,
                ).registry.models().contains(#[trigger] final(self).registry.models()[i])
                &&& forall|x: Seq<char>| #[trigger] bound(final(self).sessions.models(), x) <==> (
                bound(old(self).sessions.models(), x) && has_id(final(self).registry.models(), x))
                &&& forall|x: Seq<char>| #[trigger] bound(final(self).sessions.models(), x)
                    ==> handle_of(final(self).sessions.models(), x) == handle_of(
                    old(self).sessions.models(),
                    x,
                )
                &&& forall|x: Seq<char>| bound(old(self).sessions.models(), x) && !has_id(
                    final(self).registry.models(),
                    x,
                ) ==> r.1@.contains(handle_of(old(self).sessions.models(), x))
            },
    {
        if let Result::Err(m) = persist {
            return (Result::Err(WsError::Filesystem(m)), Vec::new());
        }
        let ghost om = self.registry.models();
        let mut kept: Vec<WorkspaceEntry> = Vec::new();
        let n = self.registry.entries.len();
        let mut i: usize = 0;
        while i < n
            invariant
                i <= n,
                n == om.len(),
                om == self.registry.models(),
                crate::registry::unique_ids(om),
                forall|k: int| 0 <= k < kept.deep_view().len() ==> om.take(i as int).contains(
                    #[trigger] kept.deep_view()[k],
                ) && !removed_by(id@, kept.deep_view()[k]),
                forall|j: int| 0 <= j < i && !removed_by(id@, #[trigger] om[j]) ==> kept.deep_view()
                    .contains(om[j]),
                crate::registry::unique_ids(kept.deep_view()),
            decreases n - i,
        {
            let e = &self.registry.entries[i];
            let removed = e.id.eq(id) || (match &e.kind {
                crate::types::WorkspaceKind::Worktree { parent_id, .. } => parent_id.eq(id),
                crate::types::WorkspaceKind::Main => false,
            });
            let ghost pre = kept.deep_view();
            if !removed {
                let c = e.clone();
                kept.push(c);
                proof {
                    assert(kept.deep_view() =~= pre.push(om[i as int]));
                    assert forall|j2: int| 0 <= j2 < i + 1 && !removed_by(id@, #[trigger] om[j2])
                        implies kept.deep_view().contains(om[j2]) by {
                        if j2 < i {
                            let k = choose|k: int| 0 <= k < pre.len() && pre[k] == om[j2];
                            assert(kept.deep_view()[k] == om[j2]);
                        } else {
                            assert(kept.deep_view().last() == om[i as int]);
                        }
                    }
                    assert(om.take(i + 1 as int).contains(om[i as int])) by {
                        assert(om.take(i + 1 as int)[i as int] == om[i as int]);
                    }
                    assert forall|k: int| 0 <= k < kept.deep_view().len() implies om.take(
                        i + 1 as int,
                    ).contains(#[trigger] kept.deep_view()[k]) && !removed_by(
                        id@,
                        kept.deep_view()[k],
                    ) by {
                        if k < pre.len() {
                            let j = choose|j: int|
                                0 <= j < i && om.take(i as int)[j] == pre[k];
                            assert(om.take(i + 1 as int)[j] == pre[k]);
                        }
                    }
                    assert(crate::registry::unique_ids(kept.deep_view())) by {
                        assert forall|a: int, b: int|
                            0 <= a < kept.deep_view().len() && 0 <= b < kept.deep_view().len()
                                && a != b implies kept.deep_view()[a].id
                            != kept.deep_view()[b].id by {
                            if a < pre.len() && b < pre.len() {
                            } else {
                                let c2 = if a < pre.len() { a } else { b };
                                if c2 < pre.len() {
                                    let j = choose|j: int|
                                        0 <= j < i && om.take(i as int)[j] == pre[c2];
                                    assert(om[j] == pre[c2]);
                                    assert(om[j].id != om[i as int].id);
                                }
                            }
                        }
                    }
                }
            } else {
                proof {
                    assert forall|k: int| 0 <= k < kept.deep_view().len() implies om.take(
                        i + 1 as int,
                    ).contains(#[trigger] kept.deep_view()[k]) && !removed_by(
                        id@,
                        kept.deep_view()[k],
                    ) by {
                        let j = choose|j: int| 0 <= j < i && om.take(i as int)[j]
                            == kept.deep_view()[k];
                        assert(om.take(i + 1 as int)[j] == kept.deep_view()[k]);
                    }
                }
            }
            i += 1;
        }
        proof {
            assert(om.take(n as int) =~= om);
        }
        let new_store = crate::types::clone_entries(&kept);
        self.registry = Registry { entries: kept };
        self.store = new_store;
        let ghost nm = self.registry.models();
        proof {
            assert(crate::registry::parents_ok(nm)) by {
                assert forall|k: int| 0 <= k < nm.len() && #[trigger] nm[k].kind is Worktree
                    implies has_id(nm, nm[k].kind->Worktree_parent_id) && entry_of(
                    nm,
                    nm[k].kind->Worktree_parent_id,
                ).kind is Main by {
                    let w = nm[k];
                    let j = choose|j: int| 0 <= j < om.len() && om[j] == w;
                    let pid = w.kind->Worktree_parent_id;
                    assert(has_id(om, pid) && entry_of(om, pid).kind is Main);
                    let pj = idx_of(om, pid);
                    let p = om[pj];
                    assert(!removed_by(id@, p)) by {
                        assert(w.parent_id() == Option::Some(pid));
                        assert(!removed_by(id@, w));
                        assert(p.kind is Main);
                    }
                    assert(nm.contains(p));
                    let pk = choose|pk: int| 0 <= pk < nm.len() && nm[pk] == p;
                    crate::registry::lemma_entry_of_known(nm, pid, pk);
                }
            }
        }
        let ghost os = self.sessions.models();
        let mut kept_s: Vec<crate::sessions::SessionBinding> = Vec::new();
        let mut killed: Vec<SessionHandle> = Vec::new();
        let sn = self.sessions.items.len();
        let mut j: usize = 0;
        while j < sn
            invariant
                j <= sn,
                sn == os.len(),
                os == self.sessions.models(),
                crate::sessions::unique_bindings(os),
                nm == self.registry.models(),
                crate::registry::unique_ids(nm),
                forall|k: int| 0 <= k < kept_s.deep_view().len() ==> os.take(j as int).contains(
                    #[trigger] kept_s.deep_view()[k],
                ) && has_id(nm, kept_s.deep_view()[k].workspace_id),
                forall|q: int| 0 <= q < j && has_id(nm, (#[trigger] os[q]).workspace_id)
                    ==> kept_s.deep_view().contains(os[q]),
                forall|q: int| 0 <= q < j && !has_id(nm, (#[trigger] os[q]).workspace_id)
                    ==> killed@.contains(os[q].handle),
                crate::sessions::unique_bindings(kept_s.deep_view()),
            decreases sn - j,
        {
            let b = &self.sessions.items[j];
            let keep_it = match self.registry.find(&b.workspace_id) {
                Option::Some(_) => true,
                Option::None => false,
            };
            let ghost pre = kept_s.deep_view();
            let ghost prek = killed@;
            if keep_it {
                kept_s.push(
                    crate::sessions::SessionBinding {
                        workspace_id: b.workspace_id.clone(),
                        handle: b.handle,
                    },
                );
                proof {
                    assert(kept_s.deep_view() =~= pre.push(os[j as int]));
                    assert(os.take(j + 1 as int)[j as int] == os[j as int]);
                    assert forall|q2: int| 0 <= q2 < j + 1 && has_id(
                        nm,
                        (#[trigger] os[q2]).workspace_id,
                    ) implies kept_s.deep_view().contains(os[q2]) by {
                        if q2 < j {
                            let k = choose|k: int| 0 <= k < pre.len() && pre[k] == os[q2];
                            assert(kept_s.deep_view()[k] == os[q2]);
                        } else {
                            assert(kept_s.deep_view().last() == os[j as int]);
                        }
                    }
                    assert forall|k: int| 0 <= k < kept_s.deep_view().len() implies os.take(
                        j + 1 as int,
                    ).contains(#[trigger] kept_s.deep_view()[k]) && has_id(
                        nm,
                        kept_s.deep_view()[k].workspace_id,
                    ) by {
                        if k < pre.len() {
                            let q = choose|q: int| 0 <= q < j && os.take(j as int)[q] == pre[k];
                            assert(os.take(j + 1 as int)[q] == pre[k]);
                        }
                    }
                    assert(crate::sessions::unique_bindings(kept_s.deep_view())) by {
                        assert forall|a: int, b2: int|
                            0 <= a < kept_s.deep_view().len() && 0 <= b2 < kept_s.deep_view().len()
                                && a != b2 implies kept_s.deep_view()[a].workspace_id
                            != kept_s.deep_view()[b2].workspace_id by {
                            if a < pre.len() && b2 < pre.len() {
                            } else {
                                let c2 = if a < pre.len() { a } else { b2 };
                                if c2 < pre.len() {
                                    let q = choose|q: int|
                                        0 <= q < j && os.take(j as int)[q] == pre[c2];
                                    assert(os[q] == pre[c2]);
                                    assert(os[q].workspace_id != os[j as int].workspace_id);
                                }
                            }
                        }
                    }
                }
            } else {
                killed.push(b.handle);
                proof {
                    assert(killed@ =~= prek.push(os[j as int].handle));
                    assert forall|k: int| 0 <= k < kept_s.deep_view().len() implies os.take(
                        j + 1 as int,
                    ).contains(#[trigger] kept_s.deep_view()[k]) && has_id(
                        nm,
                        kept_s.deep_view()[k].workspace_id,
                    ) by {
                        let q = choose|q: int| 0 <= q < j && os.take(j as int)[q]
                            == kept_s.deep_view()[k];
                        assert(os.take(j + 1 as int)[q] == kept_s.deep_view()[k]);
                    }
                    assert forall|q: int| 0 <= q < j + 1 && !has_id(
                        nm,
                        (#[trigger] os[q]).workspace_id,
                    ) implies killed@.contains(os[q].handle) by {
                        if q < j {
                            assert(prek.contains(os[q].handle));
                            let w = choose|w: int| 0 <= w < prek.len() && prek[w] == os[q].handle;
                            assert(killed@[w] == os[q].handle);
                        } else {
                            assert(killed@.last() == os[j as int].handle);
                        }
                    }
                }
            }
            j += 1;
        }
        proof {
            assert(os.take(sn as int) =~= os);
        }
        self.sessions = SessionTable { items: kept_s };
        proof {
            let ns = self.sessions.models();
            assert forall|x: Seq<char>| #[trigger] bound(ns, x) implies (bound(os, x) && has_id(
                nm,
                x,
            )) by {
                let k = choose|k: int| 0 <= k < ns.len() && ns[k].workspace_id == x;
                let q = choose|q: int| 0 <= q < os.len() && os[q] == ns[k];
                assert(os[q].workspace_id == x);
            }
            assert forall|x: Seq<char>| bound(os, x) && has_id(nm, x) implies bound(ns, x) by {
                let q = choose|q: int| 0 <= q < os.len() && os[q].workspace_id == x;
                assert(ns.contains(os[q]));
                let k = choose|k: int| 0 <= k < ns.len() && ns[k] == os[q];
                assert(ns[k].workspace_id == x);
            }
            assert forall|x: Seq<char>| #[trigger] bound(ns, x) implies handle_of(ns, x)
                == handle_of(os, x) by {
                let k = choose|k: int| 0 <= k < ns.len() && ns[k].workspace_id == x;
                let q = choose|q: int| 0 <= q < os.len() && os[q] == ns[k];
                let ki = choose|ki: int| 0 <= ki < ns.len() && ns[ki].workspace_id == x;
                assert(ns[ki] == ns[k]) by {
                    if ki != k {
                        assert(ns[ki].workspace_id != ns[k].workspace_id);
                    }
                }
                let qi = choose|qi: int| 0 <= qi < os.len() && os[qi].workspace_id == x;
                assert(os[qi] == os[q]) by {
                    if qi != q {
                        assert(os[qi].workspace_id != os[q].workspace_id);
                    }
                }
            }
            assert forall|x: Seq<char>| bound(os, x) && !has_id(nm, x) implies killed@.contains(
                handle_of(os, x),
            ) by {
                let q = choose|q: int| 0 <= q < os.len() && os[q].workspace_id == x;
                assert(killed@.contains(os[q].handle));
                let qi = choose|qi: int| 0 <= qi < os.len() && os[qi].workspace_id == x;
                assert(os[qi] == os[q]) by {
                    if qi != q {
                        assert(os[qi].workspace_id != os[q].workspace_id);
                    }
                }
            }
            assert(self.store.deep_view() =~= self.registry.models());
        }
        (Result::Ok(()), killed)
    }
}

/// The entry after a settings replacement.
pub open spec fn with_settings(e: EntryModel, s: crate::types::SettingsModel) -> EntryModel {
    EntryModel { settings: s, ..e }
}

/// The group id a clone inherits: its source's, or — when the source is a
/// worktree — the source's parent's.
pub open spec fn inherited_group(s: Seq<EntryModel>, src: EntryModel) -> Option<Seq<char>> {
    match src.kind {
        KindModel::Worktree { parent_id, .. } => if has_id(s, parent_id) {
            entry_of(s, parent_id).settings.group_id
        } else {
            Option::None
        },
        KindModel::Main => src.settings.group_id,
    }
}

/// Everything needed to add a worktree: the git command that creates it,
/// the new entry, and the launch plan for its session.
pub struct WorktreePlan {
    /// The new entry (kind worktree, branch set, settings empty).
    pub entry: WorkspaceEntry,
    /// The directory name chosen under the worktree root.
    pub dir_name: String,
    /// `git worktree add ...`, run in the parent repository.
    pub add_cmd: Vec<String>,
    /// Launch plan for the new worktree's session.
    pub spawn: SpawnPlan,
}

/// Everything needed to add a clone: the git commands, the destination to
/// remove again on failure, the new entry, and its launch plan.
pub struct ClonePlan {
    /// The new entry (kind main, group id inherited).
    pub entry: WorkspaceEntry,
    /// Where the clone is created; removed again if a later step fails.
    pub destination: String,
    /// `git clone <source path> <destination>`.
    pub clone_cmd: Vec<String>,
    /// `git remote set-url origin <url>`, run best-effort in the clone
    /// when the source has an origin URL, so the copy points at the real
    /// origin rather than at the source checkout.
    pub set_url_cmd: Option<Vec<String>>,
    /// Launch plan for the clone's session.
    pub spawn: SpawnPlan,
}

impl Core {
    /// Validates `add_worktree` against a chosen fresh id: a worktree
    /// parent is rejected whatever the branch argument; otherwise the
    /// branch must be non-empty once trimmed and the parent registered.
    /// Picks a collision-free directory under the worktree root and
    /// chooses between `worktree add` and `worktree add -b` by whether
    /// the branch already exists.
    pub fn plan_add_worktree_with_id(
        &self,
        parent_id: &String,
        branch: &String,
        worktree_root: &String,
        existing_dir_names: &Vec<String>,
        branch_exists: bool,
        new_id: String,
    ) -> (r: Result<WorktreePlan, WsError>)
        requires
            self.wf(),
            existing_dir_names@.len() + 3 <= u64::MAX,
        ensures
            has_id(self.registry.models(), parent_id@) && entry_of(
                self.registry.models(),
                parent_id@,
            ).kind is Worktree ==> (r matches Result::Err(e) && e matches WsError::InvalidOperation(
                WrongKind::WorktreeOfWorktree,
            )),
            !(has_id(self.registry.models(), parent_id@) && entry_of(
                self.registry.models(),
                parent_id@,
            ).kind is Worktree) && crate::text::trim_spec(branch@).len() == 0 ==> (
            r matches Result::Err(e) && e matches WsError::Validation(Invalid::EmptyBranch)),
            !has_id(self.registry.models(), parent_id@) && crate::text::trim_spec(branch@).len()
                > 0 ==> (r matches Result::Err(e) && e matches WsError::NotFound(Missing::Parent)),
            has_id(self.registry.models(), parent_id@) && entry_of(
                self.registry.models(),
                parent_id@,
            ).kind is Main && crate::text::trim_spec(branch@).len() > 0 && has_id(
                self.registry.models(),
                new_id@,
            ) ==> (r matches Result::Err(e) && e matches WsError::Validation(Invalid::IdTaken)),
            has_id(self.registry.models(), parent_id@) && entry_of(
                self.registry.models(),
                parent_id@,
            ).kind is Main && crate::text::trim_spec(branch@).len() > 0 && !has_id(
                self.registry.models(),
                new_id@,
            ) ==> (r matches Result::Ok(p) && {
                let t = crate::text::trim_spec(branch@);
                let parent = entry_of(self.registry.models(), parent_id@);
                &&& crate::naming::fresh_pick(
                    existing_dir_names.deep_view(),
                    crate::naming::sanitize_spec(t),
                    p.dir_name@,
                )
                &&& p.entry@ == (EntryModel {
                    id: new_id@,
                    name: t,
                    path: crate::naming::join_spec(worktree_root@, p.dir_name@),
                    codex_bin: parent.codex_bin,
                    kind: KindModel::Worktree { parent_id: parent_id@, branch: t },
                    settings: WorkspaceSettings::empty_model(),
                })
                &&& (branch_exists ==> p.add_cmd.deep_view() =~= seq![
                    "worktree"@,
                    "add"@,
                    p.entry@.path,
                    t,
                ])
                &&& (!branch_exists ==> p.add_cmd.deep_view() =~= seq![
                    "worktree"@,
                    "add"@,
                    "-b"@,
                    t,
                    p.entry@.path,
                ])
                &&& p.spawn@ == spawn_model(p.entry@, Option::Some(parent), self.app_settings@)
                &&& self.registry.accepts(p.entry@)
            }),
    {
        let found = self.registry.find(parent_id);
        if let Option::Some(pi) = found {
            proof {
                crate::registry::lemma_entry_of_known(
                    self.registry.models(),
                    parent_id@,
                    pi as int,
                );
            }
            if self.registry.entries[pi].kind.is_worktree() {
                return Result::Err(WsError::InvalidOperation(WrongKind::WorktreeOfWorktree));
            }
        }
        let trimmed = crate::text::trim_string(branch);
        if trimmed.as_str().unicode_len() == 0 {
            return Result::Err(WsError::Validation(Invalid::EmptyBranch));
        }
        let pi = match found {
            Option::Some(i) => i,
            Option::None => {
                return Result::Err(WsError::NotFound(Missing::Parent));
            },
        };
        proof {
            crate::registry::lemma_entry_of_known(self.registry.models(), parent_id@, pi as int);
        }
        let parent = self.registry.entries[pi].clone();
        if let Option::Some(_) = self.registry.find(&new_id) {
            return Result::Err(WsError::Validation(Invalid::IdTaken));
        }
        let safe = crate::naming::sanitize_worktree_name(&trimmed);
        let dir_name = crate::naming::pick_unique_name(existing_dir_names, &safe);
        let path = crate::naming::join_path(worktree_root, &dir_name);
        let add_cmd = if branch_exists {
            crate::gitcmd::worktree_add_args(&path, &trimmed)
        } else {
            crate::gitcmd::worktree_add_new_branch_args(&path, &trimmed)
        };
        let entry = WorkspaceEntry {
            id: new_id,
            name: trimmed.clone(),
            path,
            codex_bin: crate::types::clone_opt_string(&parent.codex_bin),
            kind: crate::types::WorkspaceKind::Worktree {
                parent_id: parent_id.clone(),
                branch: trimmed,
            },
            settings: WorkspaceSettings::none(),
        };
        let spawn = self.build_spawn_plan(&entry, Option::Some(&parent));
        Result::Ok(WorktreePlan { entry, dir_name, add_cmd, spawn })
    }

    /// Validates `add_worktree`, drawing a fresh workspace id.  Whatever
    /// id was drawn, a missing parent, a worktree parent, and an empty
    /// branch are rejected exactly as with a chosen id; a success carries
    /// a fresh id.
    pub fn plan_add_worktree(
        &self,
        parent_id: &String,
        branch: &String,
        worktree_root: &String,
        existing_dir_names: &Vec<String>,
        branch_exists: bool,
    ) -> (r: Result<WorktreePlan, WsError>)
        requires
            self.wf(),
            existing_dir_names@.len() + 3 <= u64::MAX,
        ensures
            has_id(self.registry.models(), parent_id@) && entry_of(
                self.registry.models(),
                parent_id@,
            ).kind is Worktree ==> (r matches Result::Err(e) && e matches WsError::InvalidOperation(
                WrongKind::WorktreeOfWorktree,
            )),
            !(has_id(self.registry.models(), parent_id@) && entry_of(
                self.registry.models(),
                parent_id@,
            ).kind is Worktree) && crate::text::trim_spec(branch@).len() == 0 ==> (
            r matches Result::Err(e) && e matches WsError::Validation(Invalid::EmptyBranch)),
            !has_id(self.registry.models(), parent_id@) && crate::text::trim_spec(branch@).len()
                > 0 ==> (r matches Result::Err(e) && e matches WsError::NotFound(Missing::Parent)),
            has_id(self.registry.models(), parent_id@) && entry_of(
                self.registry.models(),
                parent_id@,
            ).kind is Main && crate::text::trim_spec(branch@).len() > 0 ==> match r {
                Result::Ok(p) => {
                    let t = crate::text::trim_spec(branch@);
                    let parent = entry_of(self.registry.models(), parent_id@);
                    &&& crate::naming::fresh_pick(
                        existing_dir_names.deep_view(),
                        crate::naming::sanitize_spec(t),
                        p.dir_name@,
                    )
                    &&& p.entry@.name == t
                    &&& p.entry@.path == crate::naming::join_spec(worktree_root@, p.dir_name@)
                    &&& p.entry@.codex_bin == parent.codex_bin
                    &&& p.entry@.kind == (KindModel::Worktree { parent_id: parent_id@, branch: t })
                    &&& p.entry@.settings == WorkspaceSettings::empty_model()
                    &&& (branch_exists ==> p.add_cmd.deep_view() =~= seq![
                        "worktree"@,
                        "add"@,
                        p.entry@.path,
                        t,
                    ])
                    &&& (!branch_exists ==> p.add_cmd.deep_view() =~= seq![
                        "worktree"@,
                        "add"@,
                        "-b"@,
                        t,
                        p.entry@.path,
                    ])
                    &&& p.spawn@ == spawn_model(p.entry@, Option::Some(parent), self.app_settings@)
                    &&& self.registry.accepts(p.entry@)
                },
                Result::Err(e) => e matches WsError::Validation(Invalid::IdTaken),
            },
    {
        let new_id = fresh_uuid_string();
        self.plan_add_worktree_with_id(
            parent_id,
            branch,
            worktree_root,
            existing_dir_names,
            branch_exists,
            new_id,
        )
    }

    /// Validates `add_clone` against a chosen fresh id: copy name and
    /// copies folder must be non-empty once trimmed and the source must be
    /// registered.  The clone lands in the copies folder under the
    /// sanitized copy name, and inherits the source's group id (or, for a
    /// worktree source, its parent's).
    pub fn plan_add_clone_with_id(
        &self,
        source_id: &String,
        copy_name: &String,
        copies_folder: &String,
        origin_url: Option<String>,
        new_id: String,
    ) -> (r: Result<ClonePlan, WsError>)
        requires
            self.wf(),
        ensures
            crate::text::trim_spec(copy_name@).len() == 0 ==> (r matches Result::Err(e)
                && e matches WsError::Validation(Invalid::EmptyCopyName)),
            crate::text::trim_spec(copy_name@).len() > 0 && crate::text::trim_spec(
                copies_folder@,
            ).len() == 0 ==> (r matches Result::Err(e) && e matches WsError::Validation(
                Invalid::EmptyCopiesFolder,
            )),
            crate::text::trim_spec(copy_name@).len() > 0 && crate::text::trim_spec(
                copies_folder@,
            ).len() > 0 && !has_id(self.registry.models(), source_id@) ==> (r matches Result::Err(
                e,
            ) && e matches WsError::NotFound(Missing::Source)),
            crate::text::trim_spec(copy_name@).len() > 0 && crate::text::trim_spec(
                copies_folder@,
            ).len() > 0 && has_id(self.registry.models(), source_id@) && has_id(
                self.registry.models(),
                new_id@,
            ) ==> (r matches Result::Err(e) && e matches WsError::Validation(Invalid::IdTaken)),
            crate::text::trim_spec(copy_name@).len() > 0 && crate::text::trim_spec(
                copies_folder@,
            ).len() > 0 && has_id(self.registry.models(), source_id@) && !has_id(
                self.registry.models(),
                new_id@,
            ) ==> (r matches Result::Ok(p) && {
                let name_t = crate::text::trim_spec(copy_name@);
                let folder_t = crate::text::trim_spec(copies_folder@);
                let src = entry_of(self.registry.models(), source_id@);
                let dest = crate::naming::join_spec(
                    folder_t,
                    crate::naming::sanitize_spec(name_t),
                );
                &&& p.destination@ == dest
                &&& p.entry@ == (EntryModel {
                    id: new_id@,
                    name: name_t,
                    path: dest,
                    codex_bin: src.codex_bin,
                    kind: KindModel::Main,
                    settings: crate::types::SettingsModel {
                        codex_home: Option::None,
                        codex_args: Option::None,
                        group_id: inherited_group(self.registry.models(), src),
                    },
                })
                &&& p.clone_cmd.deep_view() =~= seq!["clone"@, src.path, dest]
                &&& (origin_url matches Option::Some(u) ==> (p.set_url_cmd matches Option::Some(c)
                    && c.deep_view() =~= seq!["remote"@, "set-url"@, "origin"@, u@]))
                &&& (origin_url is None ==> p.set_url_cmd is None)
                &&& p.spawn@ == spawn_model(p.entry@, Option::None, self.app_settings@)
                &&& self.registry.accepts(p.entry@)
            }),
    {
        let name_t = crate::text::trim_string(copy_name);
        if name_t.as_str().unicode_len() == 0 {
            return Result::Err(WsError::Validation(Invalid::EmptyCopyName));
        }
        let folder_t = crate::text::trim_string(copies_folder);
        if folder_t.as_str().unicode_len() == 0 {
            return Result::Err(WsError::Validation(Invalid::EmptyCopiesFolder));
        }
        let si = match self.registry.find(source_id) {
            Option::Some(i) => i,
            Option::None => {
                return Result::Err(WsError::NotFound(Missing::Source));
            },
        };
        proof {
            crate::registry::lemma_entry_of_known(self.registry.models(), source_id@, si as int);
        }
        if let Option::Some(_) = self.registry.find(&new_id) {
            return Result::Err(WsError::Validation(Invalid::IdTaken));
        }
        let source = self.registry.entries[si].clone();
        let group = match self.find_parent_of(&source) {
            Option::Some(pj) => {
                proof {
                    crate::registry::lemma_entry_of_known(
                        self.registry.models(),
                        source@.kind->Worktree_parent_id,
                        pj as int,
                    );
                }
                crate::types::clone_opt_string(&self.registry.entries[pj].settings.group_id)
            },
            Option::None => match &source.kind {
                crate::types::WorkspaceKind::Main => crate::types::clone_opt_string(
                    &source.settings.group_id,
                ),
                crate::types::WorkspaceKind::Worktree { .. } => Option::None,
            },
        };
        let safe = crate::naming::sanitize_worktree_name(&name_t);
        let destination = crate::naming::join_path(&folder_t, &safe);
        let clone_cmd = crate::gitcmd::clone_args(&source.path, &destination);
        let set_url_cmd = match &origin_url {
            Option::Some(u) => Option::Some(crate::gitcmd::remote_set_url_args(u)),
            Option::None => Option::None,
        };
        let entry = WorkspaceEntry {
            id: new_id,
            name: name_t,
            path: destination.clone(),
            codex_bin: crate::types::clone_opt_string(&source.codex_bin),
            kind: crate::types::WorkspaceKind::Main,
            settings: WorkspaceSettings::with_group(group),
        };
        let spawn = self.build_spawn_plan(&entry, Option::None);
        Result::Ok(ClonePlan { entry, destination, clone_cmd, set_url_cmd, spawn })
    }

    /// Validates `add_clone`, drawing a fresh workspace id.
    pub fn plan_add_clone(
        &self,
        source_id: &String,
        copy_name: &String,
        copies_folder: &String,
        origin_url: Option<String>,
    ) -> (r: Result<ClonePlan, WsError>)
        requires
            self.wf(),
        ensures
            crate::text::trim_spec(copy_name@).len() == 0 ==> (r matches Result::Err(e)
                && e matches WsError::Validation(Invalid::EmptyCopyName)),
            crate::text::trim_spec(copy_name@).len() > 0 && crate::text::trim_spec(
                copies_folder@,
            ).len() == 0 ==> (r matches Result::Err(e) && e matches WsError::Validation(
                Invalid::EmptyCopiesFolder,
            )),
            crate::text::trim_spec(copy_name@).len() > 0 && crate::text::trim_spec(
                copies_folder@,
            ).len() > 0 && !has_id(self.registry.models(), source_id@) ==> (r matches Result::Err(
                e,
            ) && e matches WsError::NotFound(Missing::Source)),
            crate::text::trim_spec(copy_name@).len() > 0 && crate::text::trim_spec(
                copies_folder@,
            ).len() > 0 && has_id(self.registry.models(), source_id@) ==> match r {
                Result::Ok(p) => {
                    let name_t = crate::text::trim_spec(copy_name@);
                    let folder_t = crate::text::trim_spec(copies_folder@);
                    let src = entry_of(self.registry.models(), source_id@);
                    let dest = crate::naming::join_spec(
                        folder_t,
                        crate::naming::sanitize_spec(name_t),
                    );
                    &&& p.destination@ == dest
                    &&& p.entry@.name == name_t
                    &&& p.entry@.path == dest
                    &&& p.entry@.codex_bin == src.codex_bin
                    &&& p.entry@.kind is Main
                    &&& p.entry@.settings == (crate::types::SettingsModel {
                        codex_home: Option::None,
                        codex_args: Option::None,
                        group_id: inherited_group(self.registry.models(), src),
                    })
                    &&& p.clone_cmd.deep_view() =~= seq!["clone"@, src.path, dest]
                    &&& (origin_url matches Option::Some(u) ==> (p.set_url_cmd matches
                        Option::Some(c) && c.deep_view() =~= seq![
                        "remote"@,
                        "set-url"@,
                        "origin"@,
                        u@,
                    ]))
                    &&& (origin_url is None ==> p.set_url_cmd is None)
                    &&& p.spawn@ == spawn_model(p.entry@, Option::None, self.app_settings@)
                    &&& self.registry.accepts(p.entry@)
                },
                Result::Err(e) => e matches WsError::Validation(Invalid::IdTaken),
            },
    {
        let new_id = fresh_uuid_string();
        self.plan_add_clone_with_id(source_id, copy_name, copies_folder, origin_url, new_id)
    }
}

/// The entry after a worktree rename: new display name, path and branch;
/// everything else kept.
pub open spec fn renamed_entry(e: EntryModel, fb: Seq<char>, np: Seq<char>) -> EntryModel {
    EntryModel {
        name: fb,
        path: np,
        kind: KindModel::Worktree { parent_id: e.kind->Worktree_parent_id, branch: fb },
        ..e
    }
}

/// Everything needed to rename a worktree: the branch rename, the
/// directory move (with its rollback), and the conditional respawn.
pub struct RenamePlan {
    /// The branch name actually allocated (suffixed on collision).
    pub final_branch: String,
    /// The branch the worktree had before.
    pub old_branch: String,
    /// The directory name chosen under the worktree root.
    pub dir_name: String,
    /// Where the worktree directory will live afterwards.
    pub next_path: String,
    /// Whether the directory must move at all.
    pub move_needed: bool,
    /// `git branch -m <old> <final>`, run first in the parent repository.
    pub branch_cmd: Vec<String>,
    /// `git worktree move <old path> <new path>`, run when needed.
    pub move_cmd: Vec<String>,
    /// `git branch -m <final> <old>`: undoes the rename if the move fails.
    pub rollback_cmd: Vec<String>,
    /// The entry as it will stand after the rename.
    pub updated_entry: WorkspaceEntry,
    /// Whether the worktree currently has a live session.
    pub was_connected: bool,
    /// Launch plan for the respawn; present exactly when connected.
    pub respawn: Option<SpawnPlan>,
}

impl Core {
    /// Validates `rename_worktree` and allocates the new branch name and
    /// directory.  Renaming a worktree to its current branch name fails
    /// with the "unchanged" validation error and asks for no git or
    /// filesystem action at all; the same error is the only way a valid
    /// request can fail, and only when the allocated (possibly suffixed)
    /// branch name lands back on the current one.
    pub fn plan_rename_worktree(
        &self,
        id: &String,
        branch: &String,
        existing_branches: &Vec<String>,
        worktree_root: &String,
        root_dir_names: &Vec<String>,
    ) -> (r: Result<RenamePlan, WsError>)
        requires
            self.wf(),
            existing_branches@.len() + 3 <= u64::MAX,
            root_dir_names@.len() + 3 <= u64::MAX,
        ensures
            crate::text::trim_spec(branch@).len() == 0 ==> (r matches Result::Err(e) && e matches
                WsError::Validation(Invalid::EmptyBranch)),
            crate::text::trim_spec(branch@).len() > 0 && !has_id(self.registry.models(), id@) ==> (
            r matches Result::Err(e) && e matches WsError::NotFound(Missing::Workspace)),
            crate::text::trim_spec(branch@).len() > 0 && has_id(self.registry.models(), id@)
                && entry_of(self.registry.models(), id@).kind is Main ==> (r matches Result::Err(e)
                && e matches WsError::InvalidOperation(WrongKind::NotAWorktree)),
            crate::text::trim_spec(branch@).len() > 0 && has_id(self.registry.models(), id@)
                && entry_of(self.registry.models(), id@).kind is Worktree && crate::text::trim_spec(
                branch@,
            ) == entry_of(self.registry.models(), id@).kind->Worktree_branch ==> (
            r matches Result::Err(e) && e matches WsError::Validation(Invalid::BranchUnchanged)),
            crate::text::trim_spec(branch@).len() > 0 && has_id(self.registry.models(), id@)
                && entry_of(self.registry.models(), id@).kind is Worktree && crate::text::trim_spec(
                branch@,
            ) != entry_of(self.registry.models(), id@).kind->Worktree_branch
                && !existing_branches.deep_view().contains(crate::text::trim_spec(branch@)) ==> r
                is Ok,
            crate::text::trim_spec(branch@).len() > 0 && has_id(self.registry.models(), id@)
                && entry_of(self.registry.models(), id@).kind is Worktree && crate::text::trim_spec(
                branch@,
            ) != entry_of(self.registry.models(), id@).kind->Worktree_branch
                && existing_branches.deep_view().contains(crate::text::trim_spec(branch@)) ==> (
            r matches Result::Err(e) ==> e matches WsError::Validation(Invalid::BranchUnchanged)
                && crate::naming::fresh_pick(
                existing_branches.deep_view(),
                crate::text::trim_spec(branch@),
                entry_of(self.registry.models(), id@).kind->Worktree_branch,
            )),
            crate::text::trim_spec(branch@).len() > 0 && has_id(self.registry.models(), id@)
                && entry_of(self.registry.models(), id@).kind is Worktree && crate::text::trim_spec(
                branch@,
            ) != entry_of(self.registry.models(), id@).kind->Worktree_branch
                && !crate::naming::fresh_pick(
                existing_branches.deep_view(),
                crate::text::trim_spec(branch@),
                entry_of(self.registry.models(), id@).kind->Worktree_branch,
            ) ==> r is Ok,
            r matches Result::Ok(p) ==> {
                let t = crate::text::trim_spec(branch@);
                let e = entry_of(self.registry.models(), id@);
                let old_b = e.kind->Worktree_branch;
                &&& has_id(self.registry.models(), id@)
                &&& e.kind is Worktree
                &&& t.len() > 0
                &&& p.old_branch@ == old_b
                &&& p.final_branch@ != old_b
                &&& crate::naming::fresh_pick(
                    existing_branches.deep_view(),
                    t,
                    p.final_branch@,
                )
                &&& p.next_path@ == crate::naming::join_spec(worktree_root@, p.dir_name@)
                &&& (root_dir_names.deep_view().contains(p.dir_name@)
                    ==> crate::naming::join_spec(worktree_root@, p.dir_name@) == e.path)
                &&& p.move_needed == (p.next_path@ != e.path)
                &&& p.branch_cmd.deep_view() =~= seq!["branch"@, "-m"@, old_b, p.final_branch@]
                &&& p.move_cmd.deep_view() =~= seq![
                    "worktree"@,
                    "move"@,
                    e.path,
                    p.next_path@,
                ]
                &&& p.rollback_cmd.deep_view() =~= seq![
                    "branch"@,
                    "-m"@,
                    p.final_branch@,
                    old_b,
                ]
                &&& p.updated_entry@ == renamed_entry(e, p.final_branch@, p.next_path@)
                &&& p.was_connected == bound(self.sessions.models(), id@)
                &&& (p.was_connected ==> (p.respawn matches Option::Some(sp) && sp@ == spawn_model(
                    p.updated_entry@,
                    Option::Some(
                        entry_of(self.registry.models(), e.kind->Worktree_parent_id),
                    ),
                    self.app_settings@,
                )))
                &&& (!p.was_connected ==> p.respawn is None)
            },
    {
        let trimmed = crate::text::trim_string(branch);
        if trimmed.as_str().unicode_len() == 0 {
            return Result::Err(WsError::Validation(Invalid::EmptyBranch));
        }
        let i = match self.registry.find(id) {
            Option::Some(i) => i,
            Option::None => {
                return Result::Err(WsError::NotFound(Missing::Workspace));
            },
        };
        proof {
            crate::registry::lemma_entry_of_known(self.registry.models(), id@, i as int);
        }
        let entry = self.registry.entries[i].clone();
        let old_branch = match &entry.kind {
            crate::types::WorkspaceKind::Worktree { branch: b, .. } => b.clone(),
            crate::types::WorkspaceKind::Main => {
                return Result::Err(WsError::InvalidOperation(WrongKind::NotAWorktree));
            },
        };
        if trimmed.eq(&old_branch) {
            return Result::Err(WsError::Validation(Invalid::BranchUnchanged));
        }
        let picked = crate::naming::unique_branch_name(existing_branches, &trimmed, Option::None);
        let final_branch = picked.0;
        proof {
            let dv = existing_branches.deep_view();
            if dv.contains(trimmed@) {
                let k = choose|k: nat|
                    2 <= k && final_branch@ == #[trigger] crate::naming::cand_spec(trimmed@, k)
                        && (forall|k2: nat|
                        2 <= k2 < k ==> crate::naming::branch_taken(
                            dv,
                            Option::None,
                            #[trigger] crate::naming::cand_spec(trimmed@, k2),
                        ));
                assert(2 <= k && final_branch@ == crate::naming::cand_spec(trimmed@, k) && (
                forall|k2: nat|
                    2 <= k2 < k ==> dv.contains(
                        #[trigger] crate::naming::cand_spec(trimmed@, k2),
                    )));
            }
            assert(crate::naming::fresh_pick(dv, trimmed@, final_branch@));
        }
        if final_branch.eq(&old_branch) {
            return Result::Err(WsError::Validation(Invalid::BranchUnchanged));
        }
        let pi = match self.find_parent_of(&entry) {
            Option::Some(pi) => pi,
            Option::None => {
                proof {
                    // This arm cannot be reached: a well-formed registry
                    // gives every worktree a registered parent.
                    assert(false);
                }
                return Result::Err(WsError::NotFound(Missing::WorktreeParent));
            },
        };
        proof {
            crate::registry::lemma_entry_of_known(
                self.registry.models(),
                entry@.kind->Worktree_parent_id,
                pi as int,
            );
        }
        let parent = self.registry.entries[pi].clone();
        let safe = crate::naming::sanitize_worktree_name(&final_branch);
        let candidates = crate::naming::filter_excluding_path(
            root_dir_names,
            worktree_root,
            &entry.path,
        );
        let dir_name = crate::naming::pick_unique_name(&candidates, &safe);
        let next_path = crate::naming::join_path(worktree_root, &dir_name);
        proof {
            if root_dir_names.deep_view().contains(dir_name@) {
                if crate::naming::join_spec(worktree_root@, dir_name@) != entry@.path {
                    assert(candidates.deep_view().contains(dir_name@));
                }
            }
        }
        let move_needed = !next_path.eq(&entry.path);
        let branch_cmd = crate::gitcmd::branch_move_args(&old_branch, &final_branch);
        let move_cmd = crate::gitcmd::worktree_move_args(&entry.path, &next_path);
        let rollback_cmd = crate::gitcmd::branch_move_args(&final_branch, &old_branch);
        let updated_entry = WorkspaceEntry {
            id: entry.id.clone(),
            name: final_branch.clone(),
            path: next_path.clone(),
            codex_bin: crate::types::clone_opt_string(&entry.codex_bin),
            kind: crate::types::WorkspaceKind::Worktree {
                parent_id: parent.id.clone(),
                branch: final_branch.clone(),
            },
            settings: entry.settings.clone(),
        };
        let was_connected = self.sessions.is_connected(id);
        let respawn = if was_connected {
            Option::Some(self.build_spawn_plan(&updated_entry, Option::Some(&parent)))
        } else {
            Option::None
        };
        Result::Ok(
            RenamePlan {
                final_branch,
                old_branch,
                dir_name,
                next_path,
                move_needed,
                branch_cmd,
                move_cmd,
                rollback_cmd,
                updated_entry,
                was_connected,
                respawn,
            },
        )
    }

    /// Records a completed worktree rename once the durable write of the
    /// updated list and (for a connected worktree) the respawn have been
    /// attempted.  A failed write leaves the state untouched.  On success
    /// the entry carries the new branch and path; a successful respawn
    /// replaces the session (the evicted token is handed back for
    /// termination only now, after the new session is installed), and a
    /// failed respawn keeps the old session in place.
    pub fn commit_rename_worktree(
        &mut self,
        id: &String,
        final_branch: &String,
        next_path: &String,
        persist: Result<(), String>,
        respawn: Option<Result<SessionHandle, String>>,
    ) -> (r: (Result<WorkspaceInfo, WsError>, Option<SessionHandle>))
        requires
            old(self).wf(),
            has_id(old(self).registry.models(), id@),
            entry_of(old(self).registry.models(), id@).kind is Worktree,
        ensures
            final(self).wf(),
            final(self).app_settings@ == old(self).app_settings@,
            persist matches Result::Err(m) ==> *final(self) == *old(self) && r.1 is None && (
            r.0 matches Result::Err(e) && e matches WsError::Filesystem(m2) && m2@ == m@),
            persist is Ok ==> {
                let om = old(self).registry.models();
                let e = entry_of(om, id@);
                let ne = renamed_entry(e, final_branch@, next_path@);
                &&& final(self).registry.models() == om.update(idx_of(om, id@), ne)
                &&& (match respawn {
                    Option::Some(Result::Ok(h)) => {
                        &&& bound(final(self).sessions.models(), id@)
                        &&& handle_of(final(self).sessions.models(), id@) == h
                        &&& forall|x: Seq<char>| x != id@ ==> bound(
                            final(self).sessions.models(),
                            x,
                        ) == bound(old(self).sessions.models(), x)
                        &&& r.1 == if bound(old(self).sessions.models(), id@) {
                            Option::Some(handle_of(old(self).sessions.models(), id@))
                        } else {
                            Option::<SessionHandle>::None
                        }
                    },
                    _ => final(self).sessions.models() == old(self).sessions.models() && r.1
                        is None,
                })
                &&& (r.0 matches Result::Ok(info) && info@ == WorkspaceInfo::of_entry(
                    ne,
                    bound(final(self).sessions.models(), id@),
                ))
            },
    {
        if let Result::Err(m) = persist {
            return (Result::Err(WsError::Filesystem(m)), Option::None);
        }
        let i = match self.registry.find(id) {
            Option::Some(i) => i,
            Option::None => {
                proof {
                    // This arm cannot be reached: the preconditions pin the
                    // entry down.
                    assert(false);
                }
                return (Result::Err(WsError::NotFound(Missing::Workspace)), Option::None);
            },
        };
        proof {
            crate::registry::lemma_entry_of_known(self.registry.models(), id@, i as int);
        }
        let ghost om = self.registry.models();
        let prev = self.registry.entries[i].clone();
        let parent_id = match &prev.kind {
            crate::types::WorkspaceKind::Worktree { parent_id, .. } => parent_id.clone(),
            crate::types::WorkspaceKind::Main => {
                proof {
                    // This arm cannot be reached: the preconditions pin the
                    // entry down.
                    assert(false);
                }
                return (Result::Err(WsError::InvalidOperation(WrongKind::NotAWorktree)), Option::None);
            },
        };
        let updated = WorkspaceEntry {
            id: prev.id.clone(),
            name: final_branch.clone(),
            path: next_path.clone(),
            codex_bin: crate::types::clone_opt_string(&prev.codex_bin),
            kind: crate::types::WorkspaceKind::Worktree {
                parent_id,
                branch: final_branch.clone(),
            },
            settings: prev.settings.clone(),
        };
        let stored = updated.clone();
        self.registry.entries[i] = updated;
        self.store[i] = stored;
        proof {
            let nm = self.registry.models();
            let ne = renamed_entry(entry_of(om, id@), final_branch@, next_path@);
            assert(nm =~= om.update(i as int, ne));
            assert(self.store.deep_view() =~= nm);
            assert(crate::registry::unique_ids(nm)) by {
                assert forall|a: int, b: int|
                    0 <= a < nm.len() && 0 <= b < nm.len() && a != b implies nm[a].id
                    != nm[b].id by {
                    assert(nm[a].id == om[a].id && nm[b].id == om[b].id);
                }
            }
            assert(crate::registry::parents_ok(nm)) by {
                assert forall|k: int| 0 <= k < nm.len() && #[trigger] nm[k].kind is Worktree
                    implies has_id(nm, nm[k].kind->Worktree_parent_id) && entry_of(
                    nm,
                    nm[k].kind->Worktree_parent_id,
                ).kind is Main by {
                    let pid = nm[k].kind->Worktree_parent_id;
                    assert(om[k].kind is Worktree && om[k].kind->Worktree_parent_id == pid);
                    let pj = idx_of(om, pid);
                    assert(om[pj].kind is Main);
                    assert(pj != i) by {
                        assert(om[i as int].kind is Worktree);
                    }
                    assert(nm[pj] == om[pj]);
                    crate::registry::lemma_entry_of_known(nm, pid, pj);
                }
            }
            assert forall|x: Seq<char>| #[trigger] bound(self.sessions.models(), x) implies has_id(
                nm,
                x,
            ) by {
                assert(has_id(om, x));
                let j = idx_of(om, x);
                assert(nm[j].id == x);
            }
        }
        let evicted: Option<SessionHandle> = match respawn {
            Option::Some(Result::Ok(h)) => {
                let ev = self.sessions.install(id, h);
                proof {
                    assert forall|x: Seq<char>| #[trigger] bound(self.sessions.models(), x)
                        implies has_id(self.registry.models(), x) by {
                        if x != id@ {
                            assert(bound(old(self).sessions.models(), x));
                        } else {
                            assert(self.registry.models()[i as int].id == id@);
                        }
                    }
                }
                ev
            },
            _ => Option::None,
        };
        let connected = self.sessions.is_connected(id);
        let info = WorkspaceInfo::from_entry(&self.registry.entries[i], connected);
        (Result::Ok(info), evicted)
    }

    /// Validates `rename_worktree_upstream` and lists, in order, the git
    /// pushes that publish the new branch, delete the old remote ref when
    /// one existed, and retarget the local branch's upstream.  The caller
    /// reports what git knows: whether the new branch exists locally,
    /// which remote tracks the old branch, whether `origin` exists, and
    /// whether the remote already has the new branch.
    pub fn plan_rename_upstream(
        &self,
        id: &String,
        old_branch: &String,
        new_branch: &String,
        new_branch_exists: bool,
        remote_for_old: Option<String>,
        origin_exists: bool,
        remote_branch_exists: bool,
    ) -> (r: Result<Vec<Vec<String>>, WsError>)
        requires
            self.wf(),
        ensures
            crate::text::trim_spec(old_branch@).len() == 0 || crate::text::trim_spec(
                new_branch@,
            ).len() == 0 ==> (r matches Result::Err(e) && e matches WsError::Validation(
                Invalid::EmptyBranch,
            )),
            crate::text::trim_spec(old_branch@).len() > 0 && crate::text::trim_spec(
                new_branch@,
            ).len() > 0 && crate::text::trim_spec(old_branch@) == crate::text::trim_spec(
                new_branch@,
            ) ==> (r matches Result::Err(e) && e matches WsError::Validation(
                Invalid::BranchUnchanged,
            )),
            crate::text::trim_spec(old_branch@).len() > 0 && crate::text::trim_spec(
                new_branch@,
            ).len() > 0 && crate::text::trim_spec(old_branch@) != crate::text::trim_spec(
                new_branch@,
            ) && !has_id(self.registry.models(), id@) ==> (r matches Result::Err(e) && e matches
                WsError::NotFound(Missing::Workspace)),
            crate::text::trim_spec(old_branch@).len() > 0 && crate::text::trim_spec(
                new_branch@,
            ).len() > 0 && crate::text::trim_spec(old_branch@) != crate::text::trim_spec(
                new_branch@,
            ) && has_id(self.registry.models(), id@) && entry_of(self.registry.models(), id@).kind
                is Main ==> (r matches Result::Err(e) && e matches WsError::InvalidOperation(
                WrongKind::NotAWorktree,
            )),
            crate::text::trim_spec(old_branch@).len() > 0 && crate::text::trim_spec(
                new_branch@,
            ).len() > 0 && crate::text::trim_spec(old_branch@) != crate::text::trim_spec(
                new_branch@,
            ) && has_id(self.registry.models(), id@) && entry_of(self.registry.models(), id@).kind
                is Worktree ==> {
                let ot = crate::text::trim_spec(old_branch@);
                let nt = crate::text::trim_spec(new_branch@);
                if !new_branch_exists {
                    r matches Result::Err(e) && e matches WsError::NotFound(Missing::LocalBranch)
                } else if remote_for_old is None && !origin_exists {
                    r matches Result::Err(e) && e matches WsError::Validation(Invalid::NoRemote)
                } else if remote_branch_exists {
                    r matches Result::Err(e) && e matches WsError::Validation(
                        Invalid::RemoteBranchExists,
                    )
                } else {
                    let rem = if remote_for_old is Some {
                        remote_for_old->0@
                    } else {
                        "origin"@
                    };
                    r matches Result::Ok(cmds) && (match remote_for_old {
                        Option::Some(_) => cmds.deep_view() =~~= seq![
                            seq!["push"@, rem, nt + ":"@ + nt],
                            seq!["push"@, rem, ":"@ + ot],
                            seq!["branch"@, "--set-upstream-to"@, rem + "/"@ + nt, nt],
                        ],
                        Option::None => cmds.deep_view() =~~= seq![
                            seq!["push"@, rem, nt],
                            seq!["branch"@, "--set-upstream-to"@, rem + "/"@ + nt, nt],
                        ],
                    })
                }
            },
    {
        let ot = crate::text::trim_string(old_branch);
        let nt = crate::text::trim_string(new_branch);
        if ot.as_str().unicode_len() == 0 || nt.as_str().unicode_len() == 0 {
            return Result::Err(WsError::Validation(Invalid::EmptyBranch));
        }
        if ot.eq(&nt) {
            return Result::Err(WsError::Validation(Invalid::BranchUnchanged));
        }
        let i = match self.registry.find(id) {
            Option::Some(i) => i,
            Option::None => {
                return Result::Err(WsError::NotFound(Missing::Workspace));
            },
        };
        proof {
            crate::registry::lemma_entry_of_known(self.registry.models(), id@, i as int);
        }
        let is_wt = self.registry.entries[i].kind.is_worktree();
        if !is_wt {
            return Result::Err(WsError::InvalidOperation(WrongKind::NotAWorktree));
        }
        if !new_branch_exists {
            return Result::Err(WsError::NotFound(Missing::LocalBranch));
        }
        let had_upstream = match &remote_for_old {
            Option::Some(_) => true,
            Option::None => false,
        };
        let remote = match remote_for_old {
            Option::Some(rm) => rm,
            Option::None => {
                if origin_exists {
                    String::from_str("origin")
                } else {
                    return Result::Err(WsError::Validation(Invalid::NoRemote));
                }
            },
        };
        if remote_branch_exists {
            return Result::Err(WsError::Validation(Invalid::RemoteBranchExists));
        }
        let mut cmds: Vec<Vec<String>> = Vec::new();
        if had_upstream {
            cmds.push(crate::gitcmd::push_branch_pair_args(&remote, &nt));
            cmds.push(crate::gitcmd::push_delete_args(&remote, &ot));
        } else {
            cmds.push(crate::gitcmd::push_simple_args(&remote, &nt));
        }
        cmds.push(crate::gitcmd::set_upstream_args(&remote, &nt));
        proof {
            if had_upstream {
                assert(cmds.deep_view() =~~= seq![
                    seq!["push"@, remote@, nt@ + ":"@ + nt@],
                    seq!["push"@, remote@, ":"@ + ot@],
                    seq!["branch"@, "--set-upstream-to"@, remote@ + "/"@ + nt@, nt@],
                ]);
            } else {
                assert(cmds.deep_view() =~~= seq![
                    seq!["push"@, remote@, nt@],
                    seq!["branch"@, "--set-upstream-to"@, remote@ + "/"@ + nt@, nt@],
                ]);
            }
        }
        Result::Ok(cmds)
    }
}

/// Ghost model of [`ChildSpawnOutcome`].
pub struct ChildOutcomeModel {
    pub workspace_id: Seq<char>,
    pub outcome: Result<SessionHandle, Seq<char>>,
}

/// The outcome of one child worktree's respawn attempt.
pub struct ChildSpawnOutcome {
    pub workspace_id: String,
    pub outcome: Result<SessionHandle, String>,
}

impl View for ChildSpawnOutcome {
    type V = ChildOutcomeModel;

    open spec fn view(&self) -> ChildOutcomeModel {
        ChildOutcomeModel {
            workspace_id: self.workspace_id@,
            outcome: match self.outcome {
                Result::Ok(h) => Result::Ok(h),
                Result::Err(ref m) => Result::Err(m@),
            },
        }
    }
}

impl DeepView for ChildSpawnOutcome {
    type V = ChildOutcomeModel;

    open spec fn deep_view(&self) -> ChildOutcomeModel {
        self.view()
    }
}

/// Whether one of the child outcomes names this workspace.
pub open spec fn outcome_for(s: Seq<ChildOutcomeModel>, x: Seq<char>) -> bool {
    exists|k: int| 0 <= k < s.len() && s[k].workspace_id == x
}

/// Everything needed to update a workspace's settings: the updated entry,
/// whether the entry's own session must be replaced, and the launch plans
/// for every connected child worktree whose effective configuration the
/// change touches.
pub struct UpdatePlan {
    /// The entry as it stood before the update.
    pub previous_entry: WorkspaceEntry,
    /// The entry with the new settings.
    pub updated_entry: WorkspaceEntry,
    /// Whether the home or argument override changed at all.
    pub changed: bool,
    /// Whether the entry's own (connected) session must be replaced.
    pub own_respawn: bool,
    /// Launch plan for the entry's own respawn; present exactly when
    /// needed.
    pub own_spawn: Option<SpawnPlan>,
    /// Launch plans for the connected children whose effective home or
    /// arguments actually change; disconnected children are skipped.
    pub child_spawns: Vec<SpawnPlan>,
}

impl Core {
    /// Validates `update_workspace_settings` and computes the respawn
    /// decisions: the entry's own session is replaced only when the raw
    /// home or argument override changed and it is connected; each child
    /// worktree is replaced only when connected and its *effective*
    /// configuration differs under the new parent entry.
    pub fn plan_update_settings(&self, id: &String, settings: &WorkspaceSettings) -> (r: Result<
        UpdatePlan,
        WsError,
    >)
        requires
            self.wf(),
        ensures
            !has_id(self.registry.models(), id@) ==> (r matches Result::Err(e) && e matches
                WsError::NotFound(Missing::Workspace)),
            has_id(self.registry.models(), id@) ==> (r matches Result::Ok(p) && {
                let e = entry_of(self.registry.models(), id@);
                let ne = with_settings(e, settings@);
                &&& p.previous_entry@ == e
                &&& p.updated_entry@ == ne
                &&& p.changed == crate::cascade::raw_launch_settings_changed(
                    e.settings,
                    settings@,
                )
                &&& p.own_respawn == (p.changed && bound(self.sessions.models(), id@))
                &&& (p.own_respawn ==> (p.own_spawn matches Option::Some(sp) && sp@ == spawn_model(
                    ne,
                    if ne.kind is Worktree && has_id(
                        self.registry.models(),
                        ne.kind->Worktree_parent_id,
                    ) {
                        Option::Some(entry_of(self.registry.models(), ne.kind->Worktree_parent_id))
                    } else {
                        Option::None
                    },
                    self.app_settings@,
                )))
                &&& (!p.own_respawn ==> p.own_spawn is None)
                &&& (!p.changed ==> p.child_spawns.deep_view().len() == 0)
                &&& forall|k: int| 0 <= k < p.child_spawns.deep_view().len() ==> exists|i: int|
                    0 <= i < self.registry.models().len() && (#[trigger] p.child_spawns.deep_view()[k]).workspace_id
                        == self.registry.models()[i].id && self.registry.models()[i].parent_id()
                        == Option::Some(id@) && bound(
                        self.sessions.models(),
                        self.registry.models()[i].id,
                    ) && crate::cascade::child_effective_changed_spec(
                        self.registry.models()[i],
                        e,
                        ne,
                        self.app_settings@,
                    ) && p.child_spawns.deep_view()[k] == spawn_model(
                        self.registry.models()[i],
                        Option::Some(ne),
                        self.app_settings@,
                    )
                &&& (p.changed ==> forall|i: int|
                    0 <= i < self.registry.models().len() && (#[trigger] self.registry.models()[i]).parent_id()
                        == Option::Some(id@) && bound(
                        self.sessions.models(),
                        self.registry.models()[i].id,
                    ) && crate::cascade::child_effective_changed_spec(
                        self.registry.models()[i],
                        e,
                        ne,
                        self.app_settings@,
                    ) ==> exists|k: int|
                        0 <= k < p.child_spawns.deep_view().len()
                            && (#[trigger] p.child_spawns.deep_view()[k]).workspace_id
                            == self.registry.models()[i].id)
            }),
    {
        let i = match self.registry.find(id) {
            Option::Some(i) => i,
            Option::None => {
                return Result::Err(WsError::NotFound(Missing::Workspace));
            },
        };
        proof {
            crate::registry::lemma_entry_of_known(self.registry.models(), id@, i as int);
        }
        let prev = self.registry.entries[i].clone();
        let updated = WorkspaceEntry {
            id: prev.id.clone(),
            name: prev.name.clone(),
            path: prev.path.clone(),
            codex_bin: crate::types::clone_opt_string(&prev.codex_bin),
            kind: prev.kind.clone(),
            settings: settings.clone(),
        };
        let changed = crate::cascade::launch_settings_changed(&prev.settings, settings);
        let own_connected = self.sessions.is_connected(id);
        let own_respawn = changed && own_connected;
        let own_spawn = if own_respawn {
            let sp = match self.find_parent_of(&updated) {
                Option::Some(pj) => {
                    proof {
                        crate::registry::lemma_entry_of_known(
                            self.registry.models(),
                            updated@.kind->Worktree_parent_id,
                            pj as int,
                        );
                    }
                    let parent = self.registry.entries[pj].clone();
                    self.build_spawn_plan(&updated, Option::Some(&parent))
                },
                Option::None => self.build_spawn_plan(&updated, Option::None),
            };
            Option::Some(sp)
        } else {
            Option::None
        };
        let mut child_spawns: Vec<SpawnPlan> = Vec::new();
        if changed {
            let n = self.registry.entries.len();
            let mut j: usize = 0;
            while j < n
                invariant
                    j <= n,
                    n == self.registry.models().len(),
                    self.wf(),
                    has_id(self.registry.models(), id@),
                    prev@ == entry_of(self.registry.models(), id@),
                    updated@ == with_settings(entry_of(self.registry.models(), id@), settings@),
                    forall|k: int| 0 <= k < child_spawns.deep_view().len() ==> exists|i2: int|
                        0 <= i2 < self.registry.models().len()
                            && (#[trigger] child_spawns.deep_view()[k]).workspace_id
                            == self.registry.models()[i2].id && self.registry.models()[i2]
                            .parent_id() == Option::Some(id@) && bound(
                            self.sessions.models(),
                            self.registry.models()[i2].id,
                        ) && crate::cascade::child_effective_changed_spec(
                            self.registry.models()[i2],
                            prev@,
                            updated@,
                            self.app_settings@,
                        ) && child_spawns.deep_view()[k] == spawn_model(
                            self.registry.models()[i2],
                            Option::Some(updated@),
                            self.app_settings@,
                        ),
                    forall|i2: int|
                        0 <= i2 < j && (#[trigger] self.registry.models()[i2]).parent_id()
                            == Option::Some(id@) && bound(
                            self.sessions.models(),
                            self.registry.models()[i2].id,
                        ) && crate::cascade::child_effective_changed_spec(
                            self.registry.models()[i2],
                            prev@,
                            updated@,
                            self.app_settings@,
                        ) ==> exists|k: int|
                            0 <= k < child_spawns.deep_view().len()
                                && (#[trigger] child_spawns.deep_view()[k]).workspace_id
                                == self.registry.models()[i2].id,
                decreases n - j,
            {
                let is_child = match &self.registry.entries[j].kind {
                    crate::types::WorkspaceKind::Worktree { parent_id, .. } => parent_id.eq(id),
                    crate::types::WorkspaceKind::Main => false,
                };
                if is_child {
                    let child = self.registry.entries[j].clone();
                    let connected = self.sessions.is_connected(&child.id);
                    if connected {
                        let eff_changed = crate::cascade::child_effective_changed(
                            &child,
                            &prev,
                            &updated,
                            &self.app_settings,
                        );
                        if eff_changed {
                            let ghost pre = child_spawns.deep_view();
                            let sp = self.build_spawn_plan(&child, Option::Some(&updated));
                            child_spawns.push(sp);
                            proof {
                                let dv = child_spawns.deep_view();
                                assert(dv =~= pre.push(
                                    spawn_model(
                                        self.registry.models()[j as int],
                                        Option::Some(updated@),
                                        self.app_settings@,
                                    ),
                                ));
                                assert(dv.last().workspace_id
                                    == self.registry.models()[j as int].id);
                                assert forall|k: int| 0 <= k < dv.len() implies exists|i2: int|
                                    0 <= i2 < self.registry.models().len()
                                        && (#[trigger] dv[k]).workspace_id
                                        == self.registry.models()[i2].id
                                        && self.registry.models()[i2].parent_id()
                                        == Option::Some(id@) && bound(
                                        self.sessions.models(),
                                        self.registry.models()[i2].id,
                                    ) && crate::cascade::child_effective_changed_spec(
                                        self.registry.models()[i2],
                                        prev@,
                                        updated@,
                                        self.app_settings@,
                                    ) && dv[k] == spawn_model(
                                        self.registry.models()[i2],
                                        Option::Some(updated@),
                                        self.app_settings@,
                                    ) by {
                                    if k < pre.len() {
                                        assert(pre[k] == dv[k]);
                                    } else {
                                        assert(dv[k] == spawn_model(
                                            self.registry.models()[j as int],
                                            Option::Some(updated@),
                                            self.app_settings@,
                                        ));
                                        assert(self.registry.models()[j as int].parent_id()
                                            == Option::Some(id@));
                                    }
                                }
                                assert forall|i2: int|
                                    0 <= i2 < j + 1
                                        && (#[trigger] self.registry.models()[i2]).parent_id()
                                        == Option::Some(id@) && bound(
                                        self.sessions.models(),
                                        self.registry.models()[i2].id,
                                    ) && crate::cascade::child_effective_changed_spec(
                                        self.registry.models()[i2],
                                        prev@,
                                        updated@,
                                        self.app_settings@,
                                    ) implies exists|k: int|
                                        0 <= k < dv.len() && (#[trigger] dv[k]).workspace_id
                                            == self.registry.models()[i2].id by {
                                    if i2 < j {
                                        let k = choose|k: int|
                                            0 <= k < pre.len() && (#[trigger] pre[k]).workspace_id
                                                == self.registry.models()[i2].id;
                                        assert(dv[k].workspace_id
                                            == self.registry.models()[i2].id);
                                    } else {
                                        assert(dv[dv.len() - 1].workspace_id
                                            == self.registry.models()[i2].id);
                                    }
                                }
                            }
                        }
                    }
                }
                j += 1;
            }
        }
        Result::Ok(
            UpdatePlan {
                previous_entry: prev,
                updated_entry: updated,
                changed,
                own_respawn,
                own_spawn,
                child_spawns,
            },
        )
    }

    /// Applies a settings update once the respawns and the durable write
    /// have been attempted.  A failed respawn of the entry's own session
    /// fails the whole operation and leaves the previous entry in place —
    /// no partial persisted state.  A failed write likewise leaves the
    /// state untouched.  Otherwise the entry carries the new settings;
    /// each successful child respawn replaces that child's session (the
    /// evicted tokens are handed back for termination), and a failed child
    /// respawn keeps the child's old session.
    pub fn commit_update_settings(
        &mut self,
        id: &String,
        settings: WorkspaceSettings,
        own_respawn: bool,
        own_spawn: Option<Result<SessionHandle, String>>,
        child_outcomes: &Vec<ChildSpawnOutcome>,
        persist: Result<(), String>,
    ) -> (r: (Result<WorkspaceInfo, WsError>, Vec<SessionHandle>))
        requires
            old(self).wf(),
            has_id(old(self).registry.models(), id@),
            own_respawn <==> own_spawn is Some,
            forall|k: int| 0 <= k < child_outcomes.deep_view().len() ==> has_id(
                old(self).registry.models(),
                (#[trigger] child_outcomes.deep_view()[k]).workspace_id,
            ) && child_outcomes.deep_view()[k].workspace_id != id@,
            forall|k: int, k2: int|
                0 <= k < child_outcomes.deep_view().len() && 0 <= k2
                    < child_outcomes.deep_view().len() && k != k2
                    ==> (#[trigger] child_outcomes.deep_view()[k]).workspace_id
                    != (#[trigger] child_outcomes.deep_view()[k2]).workspace_id,
        ensures
            final(self).wf(),
            final(self).app_settings@ == old(self).app_settings@,
            own_spawn matches Option::Some(Result::Err(m)) ==> *final(self) == *old(self)
                && r.1@.len() == 0 && (r.0 matches Result::Err(e) && e matches WsError::Spawn(m2)
                && m2@ == m@),
            !(own_spawn matches Option::Some(Result::Err(_))) ==> (persist matches Result::Err(m)
                ==> *final(self) == *old(self) && r.1@.len() == 0 && (r.0 matches Result::Err(e)
                && e matches WsError::Filesystem(m2) && m2@ == m@)),
            !(own_spawn matches Option::Some(Result::Err(_))) && persist is Ok ==> {
                let om = old(self).registry.models();
                let e = entry_of(om, id@);
                let ne = with_settings(e, settings@);
                let os = old(self).sessions.models();
                let ns = final(self).sessions.models();
                &&& final(self).registry.models() == om.update(idx_of(om, id@), ne)
                &&& (own_spawn matches Option::Some(Result::Ok(h)) ==> bound(ns, id@)
                    && handle_of(ns, id@) == h && (bound(os, id@) ==> r.1@.contains(
                    handle_of(os, id@),
                )))
                &&& (own_spawn is None ==> bound(ns, id@) == bound(os, id@) && (bound(os, id@)
                    ==> handle_of(ns, id@) == handle_of(os, id@)))
                &&& forall|k: int| 0 <= k < child_outcomes.deep_view().len() ==> {
                    let c = #[trigger] child_outcomes.deep_view()[k];
                    match c.outcome {
                        Result::Ok(h) => bound(ns, c.workspace_id) && handle_of(ns, c.workspace_id)
                            == h && (bound(os, c.workspace_id) ==> r.1@.contains(
                            handle_of(os, c.workspace_id),
                        )),
                        Result::Err(_) => bound(ns, c.workspace_id) == bound(os, c.workspace_id)
                            && (bound(os, c.workspace_id) ==> handle_of(ns, c.workspace_id)
                            == handle_of(os, c.workspace_id)),
                    }
                }
                &&& forall|x: Seq<char>| x != id@ && !outcome_for(child_outcomes.deep_view(), x)
                    ==> bound(ns, x) == bound(os, x) && (bound(os, x) ==> handle_of(ns, x)
                    == handle_of(os, x))
                &&& (r.0 matches Result::Ok(info) && info@ == WorkspaceInfo::of_entry(
                    ne,
                    bound(ns, id@),
                ))
            },
    {
        if let Option::Some(Result::Err(m)) = own_spawn {
            return (Result::Err(WsError::Spawn(m)), Vec::new());
        }
        if let Result::Err(m) = persist {
            return (Result::Err(WsError::Filesystem(m)), Vec::new());
        }
        let i = match self.registry.find(id) {
            Option::Some(i) => i,
            Option::None => {
                proof {
                    // This arm cannot be reached: the preconditions pin the
                    // entry down.
                    assert(false);
                }
                return (Result::Err(WsError::NotFound(Missing::Workspace)), Vec::new());
            },
        };
        proof {
            crate::registry::lemma_entry_of_known(self.registry.models(), id@, i as int);
        }
        let ghost om = self.registry.models();
        let prev = self.registry.entries[i].clone();
        let updated = WorkspaceEntry {
            id: prev.id.clone(),
            name: prev.name.clone(),
            path: prev.path.clone(),
            codex_bin: crate::types::clone_opt_string(&prev.codex_bin),
            kind: prev.kind.clone(),
            settings,
        };
        let stored = updated.clone();
        self.registry.entries[i] = updated;
        self.store[i] = stored;
        proof {
            let nm = self.registry.models();
            let ne = with_settings(entry_of(om, id@), stored@.settings);
            assert(nm =~= om.update(i as int, ne));
            assert(self.store.deep_view() =~= nm);
            assert(crate::registry::unique_ids(nm)) by {
                assert forall|a: int, b: int|
                    0 <= a < nm.len() && 0 <= b < nm.len() && a != b implies nm[a].id
                    != nm[b].id by {
                    assert(nm[a].id == om[a].id && nm[b].id == om[b].id);
                }
            }
            assert(crate::registry::parents_ok(nm)) by {
                assert forall|k: int| 0 <= k < nm.len() && #[trigger] nm[k].kind is Worktree
                    implies has_id(nm, nm[k].kind->Worktree_parent_id) && entry_of(
                    nm,
                    nm[k].kind->Worktree_parent_id,
                ).kind is Main by {
                    let pid = nm[k].kind->Worktree_parent_id;
                    assert(om[k].kind is Worktree && om[k].kind->Worktree_parent_id == pid);
                    let pj = idx_of(om, pid);
                    assert(om[pj].kind is Main);
                    assert(nm[pj].id == pid && nm[pj].kind is Main);
                    crate::registry::lemma_entry_of_known(nm, pid, pj);
                }
            }
            assert forall|x: Seq<char>| #[trigger] bound(self.sessions.models(), x) implies has_id(
                self.registry.models(),
                x,
            ) by {
                assert(has_id(om, x));
                let q = idx_of(om, x);
                assert(self.registry.models()[q].id == x);
            }
        }
        let ghost nm = self.registry.models();
        let mut kills: Vec<SessionHandle> = Vec::new();
        let ghost s0 = self.sessions.models();
        if let Option::Some(Result::Ok(h)) = own_spawn {
            let ev = self.sessions.install(id, h);
            if let Option::Some(old_h) = ev {
                kills.push(old_h);
                proof {
                    assert(kills@.last() == handle_of(s0, id@));
                    assert(kills@.contains(handle_of(s0, id@)));
                }
            }
        }
        proof {
            assert(s0 == old(self).sessions.models());
        }
        proof {
            assert forall|x: Seq<char>| #[trigger] bound(self.sessions.models(), x) implies has_id(
                nm,
                x,
            ) by {
                if x != id@ {
                    assert(bound(s0, x));
                } else {
                    assert(nm[i as int].id == id@);
                }
            }
        }
        let ghost s1 = self.sessions.models();
        let ghost kills1 = kills@;
        proof {
            assert forall|k2: int| 0 <= k2 < child_outcomes.deep_view().len() implies has_id(
                nm,
                (#[trigger] child_outcomes.deep_view()[k2]).workspace_id,
            ) && child_outcomes.deep_view()[k2].workspace_id != id@ by {
                let x = child_outcomes.deep_view()[k2].workspace_id;
                assert(has_id(om, x));
                let q = idx_of(om, x);
                assert(nm[q].id == x);
            }
        }
        let ghost rsnap = self.registry;
        let ghost stsnap = self.store;
        let ghost asnap = self.app_settings;
        let cn = child_outcomes.len();
        let mut k: usize = 0;
        while k < cn
            invariant
                k <= cn,
                cn == child_outcomes.deep_view().len(),
                self.sessions.wf(),
                self.registry == rsnap,
                self.store == stsnap,
                self.app_settings == asnap,
                rsnap.wf(),
                stsnap.deep_view() == rsnap.models(),
                nm == self.registry.models(),
                crate::registry::unique_ids(nm),
                forall|k2: int| 0 <= k2 < cn ==> has_id(
                    nm,
                    (#[trigger] child_outcomes.deep_view()[k2]).workspace_id,
                ) && child_outcomes.deep_view()[k2].workspace_id != id@,
                forall|k2: int, k3: int|
                    0 <= k2 < cn && 0 <= k3 < cn && k2 != k3
                        ==> (#[trigger] child_outcomes.deep_view()[k2]).workspace_id
                        != (#[trigger] child_outcomes.deep_view()[k3]).workspace_id,
                forall|x: Seq<char>| #[trigger] bound(self.sessions.models(), x) ==> has_id(nm, x),
                forall|k2: int| 0 <= k2 < k ==> {
                    let c = #[trigger] child_outcomes.deep_view()[k2];
                    match c.outcome {
                        Result::Ok(h) => bound(self.sessions.models(), c.workspace_id)
                            && handle_of(self.sessions.models(), c.workspace_id) == h && (bound(
                            s1,
                            c.workspace_id,
                        ) ==> kills@.contains(handle_of(s1, c.workspace_id))),
                        Result::Err(_) => bound(self.sessions.models(), c.workspace_id) == bound(
                            s1,
                            c.workspace_id,
                        ) && (bound(s1, c.workspace_id) ==> handle_of(
                            self.sessions.models(),
                            c.workspace_id,
                        ) == handle_of(s1, c.workspace_id)),
                    }
                },
                forall|x: Seq<char>|
                    !(exists|k2: int|
                        0 <= k2 < k && (#[trigger] child_outcomes.deep_view()[k2]).workspace_id
                            == x) ==> bound(self.sessions.models(), x) == bound(s1, x) && (bound(
                        s1,
                        x,
                    ) ==> handle_of(self.sessions.models(), x) == handle_of(s1, x)),
                forall|v: SessionHandle| kills1.contains(v) ==> kills@.contains(v),
            decreases cn - k,
        {
            let c = &child_outcomes[k];
            let ghost smid = self.sessions.models();
            let ghost kmid = kills@;
            match &c.outcome {
                Result::Ok(h) => {
                    let ev = self.sessions.install(&c.workspace_id, *h);
                    if let Option::Some(old_h) = ev {
                        kills.push(old_h);
                    }
                    proof {
                        assert(bound(smid, c@.workspace_id) == bound(s1, c@.workspace_id));
                        if bound(s1, c@.workspace_id) {
                            assert(handle_of(smid, c@.workspace_id) == handle_of(
                                s1,
                                c@.workspace_id,
                            ));
                            assert(kills@.last() == handle_of(s1, c@.workspace_id));
                        }
                        assert forall|v: SessionHandle| kmid.contains(v) implies kills@.contains(
                            v,
                        ) by {
                            let w = choose|w: int| 0 <= w < kmid.len() && kmid[w] == v;
                            assert(kills@[w] == v);
                        }
                        assert forall|x: Seq<char>| #[trigger] bound(self.sessions.models(), x)
                            implies has_id(nm, x) by {
                            if x != c@.workspace_id {
                                assert(bound(smid, x));
                            }
                        }
                    }
                },
                Result::Err(_) => {
                },
            }
            proof {
                assert forall|k2: int| 0 <= k2 < k + 1 implies {
                    let c2 = #[trigger] child_outcomes.deep_view()[k2];
                    match c2.outcome {
                        Result::Ok(h) => bound(self.sessions.models(), c2.workspace_id)
                            && handle_of(self.sessions.models(), c2.workspace_id) == h && (bound(
                            s1,
                            c2.workspace_id,
                        ) ==> kills@.contains(handle_of(s1, c2.workspace_id))),
                        Result::Err(_) => bound(self.sessions.models(), c2.workspace_id) == bound(
                            s1,
                            c2.workspace_id,
                        ) && (bound(s1, c2.workspace_id) ==> handle_of(
                            self.sessions.models(),
                            c2.workspace_id,
                        ) == handle_of(s1, c2.workspace_id)),
                    }
                } by {
                    let c2 = child_outcomes.deep_view()[k2];
                    if k2 < k {
                        assert(c2.workspace_id != child_outcomes.deep_view()[k as int].workspace_id);
                    }
                }
            }
            k += 1;
        }
        let connected = self.sessions.is_connected(id);
        let info = WorkspaceInfo::from_entry(&self.registry.entries[i], connected);
        proof {
            assert(self.registry.models()[i as int] == with_settings(
                entry_of(om, id@),
                stored@.settings,
            ));
        }
        (Result::Ok(info), kills)
    }

    /// Updates a workspace's binary override once the durable write of the
    /// updated list has been attempted.  A failed write leaves the state
    /// untouched; otherwise only the `codex_bin` field changes, and the
    /// snapshot reports the current connection state.
    pub fn update_codex_bin(
        &mut self,
        id: &String,
        codex_bin: Option<String>,
        persist: Result<(), String>,
    ) -> (r: Result<WorkspaceInfo, WsError>)
        requires
            old(self).wf(),
        ensures
            final(self).wf(),
            final(self).app_settings@ == old(self).app_settings@,
            final(self).sessions.models() == old(self).sessions.models(),
            !has_id(old(self).registry.models(), id@) ==> *final(self) == *old(self) && (
            r matches Result::Err(e) && e matches WsError::NotFound(Missing::Workspace)),
            has_id(old(self).registry.models(), id@) ==> (persist matches Result::Err(m)
                ==> *final(self) == *old(self) && (r matches Result::Err(e) && e matches
                WsError::Filesystem(m2) && m2@ == m@)),
            has_id(old(self).registry.models(), id@) && persist is Ok ==> {
                let om = old(self).registry.models();
                let e = entry_of(om, id@);
                let ne = EntryModel { codex_bin: crate::types::opt_view(codex_bin), ..e };
                &&& final(self).registry.models() == om.update(idx_of(om, id@), ne)
                &&& (r matches Result::Ok(info) && info@ == WorkspaceInfo::of_entry(
                    ne,
                    bound(old(self).sessions.models(), id@),
                ))
            },
    {
        let i = match self.registry.find(id) {
            Option::Some(i) => i,
            Option::None => {
                return Result::Err(WsError::NotFound(Missing::Workspace));
            },
        };
        proof {
            crate::registry::lemma_entry_of_known(self.registry.models(), id@, i as int);
        }
        if let Result::Err(m) = persist {
            return Result::Err(WsError::Filesystem(m));
        }
        let ghost om = self.registry.models();
        let prev = self.registry.entries[i].clone();
        let updated = WorkspaceEntry {
            id: prev.id.clone(),
            name: prev.name.clone(),
            path: prev.path.clone(),
            codex_bin,
            kind: prev.kind.clone(),
            settings: prev.settings.clone(),
        };
        let stored = updated.clone();
        self.registry.entries[i] = updated;
        self.store[i] = stored;
        proof {
            let nm = self.registry.models();
            let ne = EntryModel { codex_bin: nm[i as int].codex_bin, ..entry_of(om, id@) };
            assert(nm =~= om.update(i as int, ne));
            assert(self.store.deep_view() =~= nm);
            assert(crate::registry::unique_ids(nm)) by {
                assert forall|a: int, b: int|
                    0 <= a < nm.len() && 0 <= b < nm.len() && a != b implies nm[a].id
                    != nm[b].id by {
                    assert(nm[a].id == om[a].id && nm[b].id == om[b].id);
                }
            }
            assert(crate::registry::parents_ok(nm)) by {
                assert forall|k: int| 0 <= k < nm.len() && #[trigger] nm[k].kind is Worktree
                    implies has_id(nm, nm[k].kind->Worktree_parent_id) && entry_of(
                    nm,
                    nm[k].kind->Worktree_parent_id,
                ).kind is Main by {
                    let pid = nm[k].kind->Worktree_parent_id;
                    assert(om[k].kind is Worktree && om[k].kind->Worktree_parent_id == pid);
                    let pj = idx_of(om, pid);
                    assert(om[pj].kind is Main);
                    assert(nm[pj].id == pid && nm[pj].kind is Main);
                    crate::registry::lemma_entry_of_known(nm, pid, pj);
                }
            }
            assert forall|x: Seq<char>| #[trigger] bound(self.sessions.models(), x) implies has_id(
                nm,
                x,
            ) by {
                assert(has_id(om, x));
                let q = idx_of(om, x);
                assert(nm[q].id == x);
            }
        }
        let connected = self.sessions.is_connected(id);
        let info = WorkspaceInfo::from_entry(&self.registry.entries[i], connected);
        Result::Ok(info)
    }
}

/// The caller-facing snapshot of the whole registry: each entry with its
/// connected flag, computed from session presence and never stored.
pub open spec fn snapshot_of(
    models: Seq<EntryModel>,
    sessions: Seq<crate::sessions::BindingModel>,
) -> Seq<crate::types::InfoModel> {
    Seq::new(
        models.len(),
        |i: int| crate::types::InfoModel { entry: models[i], connected: bound(sessions, models[i].id) },
    )
}

/// The ids of a list of entries, in list order.
pub open spec fn id_seq(s: Seq<EntryModel>) -> Seq<Seq<char>> {
    s.map_values(|e: EntryModel| e.id)
}

/// The persisted list can never drift from the in-memory registry: in
/// every well-formed core state — and every operation of the core both
/// requires and re-establishes well-formedness — the persisted list holds
/// exactly the registry's entries, so in particular the two id sets are
/// equal after each operation completes.
pub proof fn lemma_store_matches_registry(c: &Core)
    requires
        c.wf(),
    ensures
        c.store.deep_view() == c.registry.models(),
        id_seq(c.store.deep_view()) == id_seq(c.registry.models()),
        id_seq(c.store.deep_view()).to_set() == id_seq(c.registry.models()).to_set(),
{
}

impl Core {
    /// A sorted snapshot of every workspace with its connected flag: the
    /// snapshots of exactly the registered entries, ordered by kind and
    /// then name (case-insensitively).
    pub fn list_workspaces(&self) -> (r: Vec<WorkspaceInfo>)
        requires
            self.wf(),
        ensures
            crate::sorting::sorted_infos(r.deep_view()),
            r.deep_view().to_multiset() == snapshot_of(
                self.registry.models(),
                self.sessions.models(),
            ).to_multiset(),
    {
        let mut infos: Vec<WorkspaceInfo> = Vec::new();
        let n = self.registry.entries.len();
        let mut i: usize = 0;
        while i < n
            invariant
                i <= n,
                n == self.registry.models().len(),
                infos.deep_view() =~= snapshot_of(
                    self.registry.models(),
                    self.sessions.models(),
                ).take(i as int),
            decreases n - i,
        {
            let ghost pre = infos.deep_view();
            let connected = self.sessions.is_connected(&self.registry.entries[i].id);
            let info = WorkspaceInfo::from_entry(&self.registry.entries[i], connected);
            infos.push(info);
            proof {
                assert(infos.deep_view() =~= pre.push(
                    snapshot_of(self.registry.models(), self.sessions.models())[i as int],
                ));
                assert(infos.deep_view() =~= snapshot_of(
                    self.registry.models(),
                    self.sessions.models(),
                ).take(i + 1 as int));
            }
            i += 1;
        }
        proof {
            assert(snapshot_of(self.registry.models(), self.sessions.models()).take(n as int)
                =~= snapshot_of(self.registry.models(), self.sessions.models()));
        }
        crate::sorting::sort_infos(infos)
    }
}

/// Relies on `uuid::Uuid::new_v4` and its `Display` impl: a fresh random
/// v4 UUID rendered in the 36-character hyphenated form.  Nothing further
/// is assumed of the value — callers check for collisions themselves.
#[verifier::external_body]
fn fresh_uuid_string() -> (r: String)
    ensures
        r@.len() == 36,
{
    uuid::Uuid::new_v4().to_string()
}

} // verus!
