//! Remote forwarding shim.
//!
//! Every orchestration operation first consults the execution mode,
//! resolved once per request.  In remote mode the operation's arguments
//! are packed into a structured request — path-valued arguments
//! normalized to forward slashes — and the embedding application
//! dispatches it to the remote peer instead of executing locally; the
//! peer's failure text passes through verbatim as `WsError::Remote`.
//! Every operation of the core has a request form here.

use vstd::prelude::*;

use crate::text::push_char;
use crate::types::WorkspaceSettings;

verus! {

/// Whether a request runs locally or is forwarded to a remote peer.
#[derive(Clone, Copy, Debug, PartialEq, Eq, Structural)]
pub enum ExecutionMode {
    Local,
    Remote,
}

impl ExecutionMode {
    /// Whether operations must be forwarded instead of executed locally.
    pub fn is_remote(&self) -> (r: bool)
        ensures
            r == (*self is Remote),
    {
        match self {
            ExecutionMode::Remote => true,
            ExecutionMode::Local => false,
        }
    }
}

/// A path with every backslash replaced by a forward slash.
pub open spec fn normalized_path(s: Seq<char>) -> Seq<char> {
    s.map_values(|c: char| if c == '\\' { '/' } else { c })
}

/// Normalizes a path-valued argument before transmission: platform
/// separators become forward slashes.
pub fn normalize_path_for_remote(path: &String) -> (r: String)
    ensures
        r@ == normalized_path(path@),
{
    let n = path.as_str().unicode_len();
    let mut out = String::new();
    let mut i: usize = 0;
    while i < n
        invariant
            i <= n,
            n == path@.len(),
            out@ =~= normalized_path(path@.take(i as int)),
        decreases n - i,
    {
        let c = path.as_str().get_char(i);
        let mapped: char = if c == '\\' {
            '/'
        } else {
            c
        };
        push_char(&mut out, mapped);
        proof {
            assert(out@ =~= normalized_path(path@.take(i + 1 as int)));
        }
        i += 1;
    }
    proof {
        assert(path@.take(n as int) =~= path@);
        assert(out@ =~= normalized_path(path@));
    }
    out
}

/// Ghost model of [`ParamValue`].
pub enum ParamValueModel {
    Absent,
    Text(Seq<char>),
    List(Seq<Seq<char>>),
}

/// One argument's value: absent (the caller left it out), a plain string,
/// or a list of strings.
#[derive(Debug)]
pub enum ParamValue {
    Absent,
    Text(String),
    List(Vec<String>),
}

impl View for ParamValue {
    type V = ParamValueModel;

    open spec fn view(&self) -> ParamValueModel {
        match self {
            ParamValue::Absent => ParamValueModel::Absent,
            ParamValue::Text(s) => ParamValueModel::Text(s@),
            ParamValue::List(v) => ParamValueModel::List(v.deep_view()),
        }
    }
}

/// Ghost model of [`Param`].
pub struct ParamModel {
    pub key: Seq<char>,
    pub value: ParamValueModel,
}

/// One named argument of a forwarded request.
#[derive(Debug)]
pub struct Param {
    pub key: String,
    pub value: ParamValue,
}

impl View for Param {
    type V = ParamModel;

    open spec fn view(&self) -> ParamModel {
        ParamModel { key: self.key@, value: self.value@ }
    }
}

impl DeepView for Param {
    type V = ParamModel;

    open spec fn deep_view(&self) -> ParamModel {
        self.view()
    }
}

/// A structured request for the remote peer: the operation's name and its
/// arguments in a fixed order.
pub struct RemoteRequest {
    pub op: String,
    pub params: Vec<Param>,
}

/// The model a key/value pair packs to.
pub open spec fn param_model(key: Seq<char>, value: ParamValueModel) -> ParamModel {
    ParamModel { key, value }
}

/// The model of an optional text value.
pub open spec fn opt_text(o: Option<Seq<char>>) -> ParamValueModel {
    match o {
        Option::Some(s) => ParamValueModel::Text(s),
        Option::None => ParamValueModel::Absent,
    }
}

/// The model of an optional list value.
pub open spec fn opt_list(o: Option<Seq<Seq<char>>>) -> ParamValueModel {
    match o {
        Option::Some(s) => ParamValueModel::List(s),
        Option::None => ParamValueModel::Absent,
    }
}

/// Packs one argument.
fn param(key: &str, value: ParamValue) -> (r: Param)
    ensures
        r@ == param_model(key@, value@),
{
    Param { key: String::from_str(key), value }
}

/// Packs an optional string argument.
fn opt_param(key: &str, value: Option<String>) -> (r: Param)
    ensures
        r@ == param_model(key@, opt_text(crate::types::opt_view(value))),
{
    let v = match value {
        Option::Some(s) => ParamValue::Text(s),
        Option::None => ParamValue::Absent,
    };
    Param { key: String::from_str(key), value: v }
}

/// The forwarded form of `add_workspace`: the path (and any binary
/// override) travel normalized.
pub fn remote_add_workspace(path: &String, codex_bin: Option<String>) -> (r: RemoteRequest)
    ensures
        r.op@ == "add_workspace"@,
        r.params.deep_view() =~= seq![
            param_model("path"@, ParamValueModel::Text(normalized_path(path@))),
            param_model(
                "codex_bin"@,
                match crate::types::opt_view(codex_bin) {
                    Option::Some(b) => ParamValueModel::Text(normalized_path(b)),
                    Option::None => ParamValueModel::Absent,
                },
            ),
        ],
{
    let norm_bin: Option<String> = match codex_bin {
        Option::Some(b) => Option::Some(normalize_path_for_remote(&b)),
        Option::None => Option::None,
    };
    let mut params: Vec<Param> = Vec::new();
    params.push(param("path", ParamValue::Text(normalize_path_for_remote(path))));
    params.push(opt_param("codex_bin", norm_bin));
    let r = RemoteRequest { op: String::from_str("add_workspace"), params };
    proof {
        assert(r.params.deep_view() =~= seq![
            param_model("path"@, ParamValueModel::Text(normalized_path(path@))),
            r.params.deep_view()[1],
        ]);
    }
    r
}

/// The forwarded form of `add_worktree`.
pub fn remote_add_worktree(parent_id: &String, branch: &String) -> (r: RemoteRequest)
    ensures
        r.op@ == "add_worktree"@,
        r.params.deep_view() =~= seq![
            param_model("parentId"@, ParamValueModel::Text(parent_id@)),
            param_model("branch"@, ParamValueModel::Text(branch@)),
        ],
{
    let mut params: Vec<Param> = Vec::new();
    params.push(param("parentId", ParamValue::Text(parent_id.clone())));
    params.push(param("branch", ParamValue::Text(branch.clone())));
    RemoteRequest { op: String::from_str("add_worktree"), params }
}

/// The forwarded form of `add_clone`: the copies folder travels
/// normalized.
pub fn remote_add_clone(
    source_id: &String,
    copy_name: &String,
    copies_folder: &String,
) -> (r: RemoteRequest)
    ensures
        r.op@ == "add_clone"@,
        r.params.deep_view() =~= seq![
            param_model("sourceWorkspaceId"@, ParamValueModel::Text(source_id@)),
            param_model("copyName"@, ParamValueModel::Text(copy_name@)),
            param_model(
                "copiesFolder"@,
                ParamValueModel::Text(normalized_path(copies_folder@)),
            ),
        ],
{
    let mut params: Vec<Param> = Vec::new();
    params.push(param("sourceWorkspaceId", ParamValue::Text(source_id.clone())));
    params.push(param("copyName", ParamValue::Text(copy_name.clone())));
    params.push(
        param("copiesFolder", ParamValue::Text(normalize_path_for_remote(copies_folder))),
    );
    RemoteRequest { op: String::from_str("add_clone"), params }
}

/// The forwarded form of an operation that takes only a workspace id
/// under the key `id`: `remove_workspace`, `remove_worktree`,
/// `connect_workspace`; the operation name passes through as given.
pub fn remote_id_op(op: &str, id: &String) -> (r: RemoteRequest)
    ensures
        r.op@ == op@,
        r.params.deep_view() =~= seq![param_model("id"@, ParamValueModel::Text(id@))],
{
    let mut params: Vec<Param> = Vec::new();
    params.push(param("id", ParamValue::Text(id.clone())));
    RemoteRequest { op: String::from_str(op), params }
}

/// The forwarded form of `apply_worktree_changes`.
pub fn remote_apply_changes(workspace_id: &String) -> (r: RemoteRequest)
    ensures
        r.op@ == "apply_worktree_changes"@,
        r.params.deep_view() =~= seq![
            param_model("workspaceId"@, ParamValueModel::Text(workspace_id@)),
        ],
{
    let mut params: Vec<Param> = Vec::new();
    params.push(param("workspaceId", ParamValue::Text(workspace_id.clone())));
    RemoteRequest { op: String::from_str("apply_worktree_changes"), params }
}

/// The forwarded form of `rename_worktree`.
pub fn remote_rename_worktree(id: &String, branch: &String) -> (r: RemoteRequest)
    ensures
        r.op@ == "rename_worktree"@,
        r.params.deep_view() =~= seq![
            param_model("id"@, ParamValueModel::Text(id@)),
            param_model("branch"@, ParamValueModel::Text(branch@)),
        ],
{
    let mut params: Vec<Param> = Vec::new();
    params.push(param("id", ParamValue::Text(id.clone())));
    params.push(param("branch", ParamValue::Text(branch.clone())));
    RemoteRequest { op: String::from_str("rename_worktree"), params }
}

/// The forwarded form of `rename_worktree_upstream`.
pub fn remote_rename_upstream(
    id: &String,
    old_branch: &String,
    new_branch: &String,
) -> (r: RemoteRequest)
    ensures
        r.op@ == "rename_worktree_upstream"@,
        r.params.deep_view() =~= seq![
            param_model("id"@, ParamValueModel::Text(id@)),
            param_model("oldBranch"@, ParamValueModel::Text(old_branch@)),
            param_model("newBranch"@, ParamValueModel::Text(new_branch@)),
        ],
{
    let mut params: Vec<Param> = Vec::new();
    params.push(param("id", ParamValue::Text(id.clone())));
    params.push(param("oldBranch", ParamValue::Text(old_branch.clone())));
    params.push(param("newBranch", ParamValue::Text(new_branch.clone())));
    RemoteRequest { op: String::from_str("rename_worktree_upstream"), params }
}

/// The forwarded form of `update_workspace_settings`: the settings travel
/// field by field; the peer reassembles them.
pub fn remote_update_settings(id: &String, settings: &WorkspaceSettings) -> (r: RemoteRequest)
    ensures
        r.op@ == "update_workspace_settings"@,
        r.params.deep_view() =~= seq![
            param_model("id"@, ParamValueModel::Text(id@)),
            param_model("codex_home"@, opt_text(settings@.codex_home)),
            param_model("codex_args"@, opt_list(settings@.codex_args)),
            param_model("group_id"@, opt_text(settings@.group_id)),
        ],
{
    let args_value = match &settings.codex_args {
        Option::Some(v) => ParamValue::List(crate::types::clone_args(v)),
        Option::None => ParamValue::Absent,
    };
    let mut params: Vec<Param> = Vec::new();
    params.push(param("id", ParamValue::Text(id.clone())));
    params.push(
        opt_param("codex_home", crate::types::clone_opt_string(&settings.codex_home)),
    );
    params.push(param("codex_args", args_value));
    params.push(opt_param("group_id", crate::types::clone_opt_string(&settings.group_id)));
    RemoteRequest { op: String::from_str("update_workspace_settings"), params }
}

/// The forwarded form of `update_workspace_codex_bin`: the override
/// travels normalized.
pub fn remote_update_codex_bin(id: &String, codex_bin: Option<String>) -> (r: RemoteRequest)
    ensures
        r.op@ == "update_workspace_codex_bin"@,
        r.params.deep_view() =~= seq![
            param_model("id"@, ParamValueModel::Text(id@)),
            param_model(
                "codex_bin"@,
                match crate::types::opt_view(codex_bin) {
                    Option::Some(b) => ParamValueModel::Text(normalized_path(b)),
                    Option::None => ParamValueModel::Absent,
                },
            ),
        ],
{
    let norm_bin: Option<String> = match codex_bin {
        Option::Some(b) => Option::Some(normalize_path_for_remote(&b)),
        Option::None => Option::None,
    };
    let mut params: Vec<Param> = Vec::new();
    params.push(param("id", ParamValue::Text(id.clone())));
    params.push(opt_param("codex_bin", norm_bin));
    RemoteRequest { op: String::from_str("update_workspace_codex_bin"), params }
}

/// The forwarded form of an operation with no arguments, such as
/// `list_workspaces`.
pub fn remote_plain_op(op: &str) -> (r: RemoteRequest)
    ensures
        r.op@ == op@,
        r.params.deep_view() =~= Seq::<ParamModel>::empty(),
{
    let params: Vec<Param> = Vec::new();
    let r = RemoteRequest { op: String::from_str(op), params };
    proof {
        assert(r.params.deep_view() =~= Seq::<ParamModel>::empty());
    }
    r
}

/// The error a failed forwarding surfaces: the peer's message, verbatim.
pub fn remote_failure(message: String) -> (r: crate::errors::WsError)
    ensures
        r matches crate::errors::WsError::Remote(m) && m@ == message@,
{
    crate::errors::WsError::Remote(message)
}

} // verus!
