//! Data model of the orchestration core.
//!
//! Each executable type has a ghost model over `Seq<char>` so that contracts
//! can speak about values mathematically; `@` maps a value to its model.

use vstd::prelude::*;

verus! {

/// Ghost model of [`WorkspaceSettings`].
pub struct SettingsModel {
    pub codex_home: Option<Seq<char>>,
    pub codex_args: Option<Seq<Seq<char>>>,
    pub group_id: Option<Seq<char>>,
}

/// Per-workspace overrides: an optional home-directory override, optional
/// extra launch arguments, and an optional group id.
#[derive(Debug)]
pub struct WorkspaceSettings {
    pub codex_home: Option<String>,
    pub codex_args: Option<Vec<String>>,
    pub group_id: Option<String>,
}

/// The model of an optional string.
pub open spec fn opt_view(o: Option<String>) -> Option<Seq<char>> {
    match o {
        Option::Some(s) => Option::Some(s@),
        Option::None => Option::None,
    }
}

/// The model of an optional argument list.
pub open spec fn opt_args_view(o: Option<Vec<String>>) -> Option<Seq<Seq<char>>> {
    match o {
        Option::Some(v) => Option::Some(v.deep_view()),
        Option::None => Option::None,
    }
}

impl View for WorkspaceSettings {
    type V = SettingsModel;

    open spec fn view(&self) -> SettingsModel {
        SettingsModel {
            codex_home: opt_view(self.codex_home),
            codex_args: opt_args_view(self.codex_args),
            group_id: opt_view(self.group_id),
        }
    }
}

impl WorkspaceSettings {
    /// The settings a freshly added workspace starts with: no overrides.
    pub open spec fn empty_model() -> SettingsModel {
        SettingsModel { codex_home: Option::None, codex_args: Option::None, group_id: Option::None }
    }

    /// Settings with every override absent.
    pub fn none() -> (r: WorkspaceSettings)
        ensures
            r@ == Self::empty_model(),
    {
        WorkspaceSettings { codex_home: Option::None, codex_args: Option::None, group_id: Option::None }
    }

    /// Settings with every override absent except a group id.
    pub fn with_group(group_id: Option<String>) -> (r: WorkspaceSettings)
        ensures
            r@ == (SettingsModel { group_id: opt_view(group_id), ..Self::empty_model() }),
    {
        WorkspaceSettings { codex_home: Option::None, codex_args: Option::None, group_id }
    }
}

impl Clone for WorkspaceSettings {
    fn clone(&self) -> (r: Self)
        ensures
            r@ == self@,
    {
        WorkspaceSettings {
            codex_home: clone_opt_string(&self.codex_home),
            codex_args: clone_opt_args(&self.codex_args),
            group_id: clone_opt_string(&self.group_id),
        }
    }
}

/// Duplicates an optional string, preserving its model.
pub fn clone_opt_string(o: &Option<String>) -> (r: Option<String>)
    ensures
        opt_view(r) == opt_view(*o),
{
    match o {
        Option::Some(s) => Option::Some(s.clone()),
        Option::None => Option::None,
    }
}

/// Duplicates a string list, preserving its model.
pub fn clone_args(v: &Vec<String>) -> (r: Vec<String>)
    ensures
        r.deep_view() == v.deep_view(),
{
    let mut out: Vec<String> = Vec::new();
    let mut i: usize = 0;
    while i < v.len()
        invariant
            i <= v.len(),
            out@ =~= v@.take(i as int),
        decreases v.len() - i,
    {
        out.push(v[i].clone());
        proof {
            assert(out@ =~= v@.take(i + 1 as int));
        }
        i += 1;
    }
    proof {
        assert(out@ =~= v@);
        assert(out.deep_view() =~= v.deep_view());
    }
    out
}

/// Duplicates an optional string list, preserving its model.
pub fn clone_opt_args(o: &Option<Vec<String>>) -> (r: Option<Vec<String>>)
    ensures
        opt_args_view(r) == opt_args_view(*o),
{
    match o {
        Option::Some(v) => Option::Some(clone_args(v)),
        Option::None => Option::None,
    }
}

/// Ghost model of [`WorkspaceKind`].
pub enum KindModel {
    Main,
    Worktree { parent_id: Seq<char>, branch: Seq<char> },
}

impl KindModel {
    /// Whether this kind is the worktree variant.
    pub open spec fn is_worktree(self) -> bool {
        self is Worktree
    }
}

/// The kind of a workspace entry: a main repository (or clone), or a git
/// worktree derived from a parent entry.  The worktree variant carries the
/// id of its parent entry and the branch it checks out.
#[derive(Debug)]
pub enum WorkspaceKind {
    Main,
    Worktree { parent_id: String, branch: String },
}

impl View for WorkspaceKind {
    type V = KindModel;

    open spec fn view(&self) -> KindModel {
        match self {
            WorkspaceKind::Main => KindModel::Main,
            WorkspaceKind::Worktree { parent_id, branch } => KindModel::Worktree {
                parent_id: parent_id@,
                branch: branch@,
            },
        }
    }
}

impl WorkspaceKind {
    /// Whether this entry is a worktree.
    pub fn is_worktree(&self) -> (r: bool)
        ensures
            r == self@.is_worktree(),
    {
        match self {
            WorkspaceKind::Worktree { .. } => true,
            WorkspaceKind::Main => false,
        }
    }
}

impl Clone for WorkspaceKind {
    fn clone(&self) -> (r: Self)
        ensures
            r@ == self@,
    {
        match self {
            WorkspaceKind::Main => WorkspaceKind::Main,
            WorkspaceKind::Worktree { parent_id, branch } => WorkspaceKind::Worktree {
                parent_id: parent_id.clone(),
                branch: branch.clone(),
            },
        }
    }
}

/// Ghost model of [`WorkspaceEntry`].
pub struct EntryModel {
    pub id: Seq<char>,
    pub name: Seq<char>,
    pub path: Seq<char>,
    pub codex_bin: Option<Seq<char>>,
    pub kind: KindModel,
    pub settings: SettingsModel,
}

impl EntryModel {
    /// The parent id this entry references, if it is a worktree.
    pub open spec fn parent_id(self) -> Option<Seq<char>> {
        match self.kind {
            KindModel::Worktree { parent_id, .. } => Option::Some(parent_id),
            KindModel::Main => Option::None,
        }
    }

    /// The branch this entry checks out, if it is a worktree.
    pub open spec fn branch(self) -> Option<Seq<char>> {
        match self.kind {
            KindModel::Worktree { branch, .. } => Option::Some(branch),
            KindModel::Main => Option::None,
        }
    }
}

/// A registered workspace: identity, display name, absolute path, optional
/// binary override, kind, and per-workspace settings.
#[derive(Debug)]
pub struct WorkspaceEntry {
    pub id: String,
    pub name: String,
    pub path: String,
    pub codex_bin: Option<String>,
    pub kind: WorkspaceKind,
    pub settings: WorkspaceSettings,
}

impl View for WorkspaceEntry {
    type V = EntryModel;

    open spec fn view(&self) -> EntryModel {
        EntryModel {
            id: self.id@,
            name: self.name@,
            path: self.path@,
            codex_bin: opt_view(self.codex_bin),
            kind: self.kind@,
            settings: self.settings@,
        }
    }
}

impl DeepView for WorkspaceEntry {
    type V = EntryModel;

    open spec fn deep_view(&self) -> EntryModel {
        self.view()
    }
}

impl Clone for WorkspaceEntry {
    fn clone(&self) -> (r: Self)
        ensures
            r@ == self@,
    {
        WorkspaceEntry {
            id: self.id.clone(),
            name: self.name.clone(),
            path: self.path.clone(),
            codex_bin: clone_opt_string(&self.codex_bin),
            kind: self.kind.clone(),
            settings: self.settings.clone(),
        }
    }
}

/// Duplicates an entry list, preserving its model.
pub fn clone_entries(v: &Vec<WorkspaceEntry>) -> (r: Vec<WorkspaceEntry>)
    ensures
        r.deep_view() == v.deep_view(),
{
    let mut out: Vec<WorkspaceEntry> = Vec::new();
    let mut i: usize = 0;
    while i < v.len()
        invariant
            i <= v.len(),
            out.deep_view() =~= v.deep_view().take(i as int),
        decreases v.len() - i,
    {
        let ghost pre = out.deep_view();
        out.push(v[i].clone());
        proof {
            assert(out.deep_view() =~= pre.push(v@[i as int]@));
            assert(out.deep_view() =~= v.deep_view().take(i + 1 as int));
        }
        i += 1;
    }
    proof {
        assert(out.deep_view() =~= v.deep_view());
    }
    out
}

/// Ghost model of [`WorkspaceInfo`].
pub struct InfoModel {
    pub entry: EntryModel,
    pub connected: bool,
}

/// A snapshot of a workspace entry handed to callers, with a `connected`
/// flag computed from session presence (never stored).
#[derive(Debug)]
pub struct WorkspaceInfo {
    pub id: String,
    pub name: String,
    pub path: String,
    pub codex_bin: Option<String>,
    pub kind: WorkspaceKind,
    pub settings: WorkspaceSettings,
    pub connected: bool,
}

impl View for WorkspaceInfo {
    type V = InfoModel;

    open spec fn view(&self) -> InfoModel {
        InfoModel {
            entry: EntryModel {
                id: self.id@,
                name: self.name@,
                path: self.path@,
                codex_bin: opt_view(self.codex_bin),
                kind: self.kind@,
                settings: self.settings@,
            },
            connected: self.connected,
        }
    }
}

impl Clone for WorkspaceInfo {
    fn clone(&self) -> (r: Self)
        ensures
            r@ == self@,
    {
        WorkspaceInfo {
            id: self.id.clone(),
            name: self.name.clone(),
            path: self.path.clone(),
            codex_bin: clone_opt_string(&self.codex_bin),
            kind: self.kind.clone(),
            settings: self.settings.clone(),
            connected: self.connected,
        }
    }
}

impl DeepView for WorkspaceInfo {
    type V = InfoModel;

    open spec fn deep_view(&self) -> InfoModel {
        self.view()
    }
}

impl WorkspaceInfo {
    /// The snapshot an entry yields when its connection state is known.
    pub open spec fn of_entry(entry: EntryModel, connected: bool) -> InfoModel {
        InfoModel { entry, connected }
    }

    /// Builds the caller-facing snapshot of an entry.
    pub fn from_entry(entry: &WorkspaceEntry, connected: bool) -> (r: WorkspaceInfo)
        ensures
            r@ == Self::of_entry(entry@, connected),
    {
        WorkspaceInfo {
            id: entry.id.clone(),
            name: entry.name.clone(),
            path: entry.path.clone(),
            codex_bin: clone_opt_string(&entry.codex_bin),
            kind: entry.kind.clone(),
            settings: entry.settings.clone(),
            connected,
        }
    }
}

/// An opaque token for a running agent process.  The embedding application
/// launches the process and owns the real child handle; the core tracks the
/// token and never duplicates it across workspaces.
#[derive(Clone, Copy, Debug, PartialEq, Eq, Structural)]
pub struct SessionHandle {
    pub token: u64,
}

/// Global application defaults consulted by the settings cascade.
#[derive(Debug)]
pub struct AppSettings {
    /// Default agent binary when an entry has no override.
    pub codex_bin: Option<String>,
    /// Default launch arguments, always placed first.
    pub codex_args: Option<Vec<String>>,
    /// Root of the default per-workspace home layout, keyed by entry id.
    pub home_root: String,
}

/// Ghost model of [`AppSettings`].
pub struct AppSettingsModel {
    pub codex_bin: Option<Seq<char>>,
    pub codex_args: Option<Seq<Seq<char>>>,
    pub home_root: Seq<char>,
}

impl View for AppSettings {
    type V = AppSettingsModel;

    open spec fn view(&self) -> AppSettingsModel {
        AppSettingsModel {
            codex_bin: opt_view(self.codex_bin),
            codex_args: opt_args_view(self.codex_args),
            home_root: self.home_root@,
        }
    }
}

impl Clone for AppSettings {
    fn clone(&self) -> (r: Self)
        ensures
            r@ == self@,
    {
        AppSettings {
            codex_bin: clone_opt_string(&self.codex_bin),
            codex_args: clone_opt_args(&self.codex_args),
            home_root: self.home_root.clone(),
        }
    }
}

/// Ghost model of [`SpawnPlan`].
pub struct SpawnPlanModel {
    pub workspace_id: Seq<char>,
    pub program: Seq<char>,
    pub args: Seq<Seq<char>>,
    pub home: Seq<char>,
}

/// Everything the embedding application needs to launch an agent process
/// for a workspace: the binary, the effective argument list, and the
/// effective home directory.
#[derive(Debug)]
pub struct SpawnPlan {
    pub workspace_id: String,
    pub program: String,
    pub args: Vec<String>,
    pub home: String,
}

impl View for SpawnPlan {
    type V = SpawnPlanModel;

    open spec fn view(&self) -> SpawnPlanModel {
        SpawnPlanModel {
            workspace_id: self.workspace_id@,
            program: self.program@,
            args: self.args.deep_view(),
            home: self.home@,
        }
    }
}

impl DeepView for SpawnPlan {
    type V = SpawnPlanModel;

    open spec fn deep_view(&self) -> SpawnPlanModel {
        self.view()
    }
}

} // verus!
