//! Error taxonomy of the orchestration core.
//!
//! Failures are surfaced to callers as plain descriptive strings; the
//! variants keep the category (and, for git failures, the raw stderr text)
//! so that contracts can state exactly which error an input produces.

use vstd::prelude::*;

verus! {

/// Which referenced object was absent.
#[derive(Clone, Copy, Debug, PartialEq, Eq, Structural)]
pub enum Missing {
    /// The workspace id named by the call is not registered.
    Workspace,
    /// The parent workspace named when adding a worktree is not registered.
    Parent,
    /// A worktree's `parent_id` does not resolve to a registered entry.
    WorktreeParent,
    /// The source workspace of a clone is not registered.
    Source,
    /// A local git branch that the operation needs does not exist.
    LocalBranch,
}

/// The entry has the wrong kind for the requested operation.
#[derive(Clone, Copy, Debug, PartialEq, Eq, Structural)]
pub enum WrongKind {
    /// Attempt to create a worktree whose parent is itself a worktree.
    WorktreeOfWorktree,
    /// `remove_workspace` called on a worktree entry.
    WorkspaceIsWorktree,
    /// A worktree-only operation called on a non-worktree entry.
    NotAWorktree,
}

/// A required input was empty or otherwise unusable.
#[derive(Clone, Copy, Debug, PartialEq, Eq, Structural)]
pub enum Invalid {
    /// The branch name was empty after trimming.
    EmptyBranch,
    /// The clone copy name was empty after trimming.
    EmptyCopyName,
    /// The copies folder was empty after trimming.
    EmptyCopiesFolder,
    /// The workspace path does not name a directory.
    NotAFolder,
    /// The copies folder exists but is not a directory.
    FolderNotDir,
    /// A rename would leave the branch name unchanged.
    BranchUnchanged,
    /// A freshly drawn workspace id collided with a registered one.
    IdTaken,
    /// No git remote is configured for the repository.
    NoRemote,
    /// The remote branch that would be created already exists.
    RemoteBranchExists,
    /// A loaded entry list repeats an id or dangles a worktree parent.
    MalformedList,
}

/// Every failure an orchestration operation can report.
#[derive(Debug)]
pub enum WsError {
    /// A referenced workspace, parent, source or branch is absent.
    NotFound(Missing),
    /// The entry's kind does not admit the requested operation.
    InvalidOperation(WrongKind),
    /// A required field was empty or a path was not a directory.
    Validation(Invalid),
    /// A directory create/remove or persistence write failed; carries the
    /// underlying error text.
    Filesystem(String),
    /// A git command exited non-zero; carries the raw stderr text.
    Git(String),
    /// `git apply` reported neither detail nor success.
    ApplyFailed,
    /// The three-way apply completed but produced conflicts.
    Conflict,
    /// The patch applied only partially.
    PartialApply,
    /// The combined patch was empty: nothing to apply.
    NoChanges,
    /// The parent repository has uncommitted changes.
    DirtyParent,
    /// Launching the workspace's agent process failed.
    Spawn(String),
    /// A forwarded remote operation failed; the message passes through
    /// verbatim.
    Remote(String),
}

impl WsError {
    /// The user-visible description of this failure.
    pub open spec fn message_spec(self) -> Seq<char> {
        match self {
            WsError::NotFound(Missing::Workspace) => "workspace not found"@,
            WsError::NotFound(Missing::Parent) => "parent workspace not found"@,
            WsError::NotFound(Missing::WorktreeParent) => "worktree parent not found"@,
            WsError::NotFound(Missing::Source) => "source workspace not found"@,
            WsError::NotFound(Missing::LocalBranch) => "Local branch not found."@,
            WsError::InvalidOperation(WrongKind::WorktreeOfWorktree) => "Cannot create a worktree from another worktree."@,
            WsError::InvalidOperation(WrongKind::WorkspaceIsWorktree) => "Use remove_worktree for worktree agents."@,
            WsError::InvalidOperation(WrongKind::NotAWorktree) => "Not a worktree workspace."@,
            WsError::Validation(Invalid::EmptyBranch) => "Branch name is required."@,
            WsError::Validation(Invalid::EmptyCopyName) => "Copy name is required."@,
            WsError::Validation(Invalid::EmptyCopiesFolder) => "Copies folder is required."@,
            WsError::Validation(Invalid::NotAFolder) => "Workspace path must be a folder."@,
            WsError::Validation(Invalid::FolderNotDir) => "Copies folder must be a directory."@,
            WsError::Validation(Invalid::BranchUnchanged) => "Branch name is unchanged."@,
            WsError::Validation(Invalid::IdTaken) => "workspace id already in use"@,
            WsError::Validation(Invalid::NoRemote) => "No git remote configured for this worktree."@,
            WsError::Validation(Invalid::RemoteBranchExists) => "Remote branch already exists."@,
            WsError::Validation(Invalid::MalformedList) => "Stored workspace list is malformed."@,
            WsError::Filesystem(m) => m@,
            WsError::Git(d) => d@,
            WsError::ApplyFailed => "Git apply failed."@,
            WsError::Conflict => "Applied with conflicts. Resolve conflicts in the parent repo before retrying."@,
            WsError::PartialApply => "Patch applied partially. Resolve changes in the parent repo before retrying."@,
            WsError::NoChanges => "No changes to apply."@,
            WsError::DirtyParent => "Your current branch has uncommitted changes. Please commit, stash, or discard them before applying worktree changes."@,
            WsError::Spawn(m) => m@,
            WsError::Remote(m) => m@,
        }
    }

    /// Renders the user-visible description of this failure.
    pub fn message(&self) -> (r: String)
        ensures
            r@ == self.message_spec(),
    {
        match self {
            WsError::NotFound(Missing::Workspace) => String::from_str("workspace not found"),
            WsError::NotFound(Missing::Parent) => String::from_str("parent workspace not found"),
            WsError::NotFound(Missing::WorktreeParent) => String::from_str("worktree parent not found"),
            WsError::NotFound(Missing::Source) => String::from_str("source workspace not found"),
            WsError::NotFound(Missing::LocalBranch) => String::from_str("Local branch not found."),
            WsError::InvalidOperation(WrongKind::WorktreeOfWorktree) => String::from_str("Cannot create a worktree from another worktree."),
            WsError::InvalidOperation(WrongKind::WorkspaceIsWorktree) => String::from_str("Use remove_worktree for worktree agents."),
            WsError::InvalidOperation(WrongKind::NotAWorktree) => String::from_str("Not a worktree workspace."),
            WsError::Validation(Invalid::EmptyBranch) => String::from_str("Branch name is required."),
            WsError::Validation(Invalid::EmptyCopyName) => String::from_str("Copy name is required."),
            WsError::Validation(Invalid::EmptyCopiesFolder) => String::from_str("Copies folder is required."),
            WsError::Validation(Invalid::NotAFolder) => String::from_str("Workspace path must be a folder."),
            WsError::Validation(Invalid::FolderNotDir) => String::from_str("Copies folder must be a directory."),
            WsError::Validation(Invalid::BranchUnchanged) => String::from_str("Branch name is unchanged."),
            WsError::Validation(Invalid::IdTaken) => String::from_str("workspace id already in use"),
            WsError::Validation(Invalid::NoRemote) => String::from_str("No git remote configured for this worktree."),
            WsError::Validation(Invalid::RemoteBranchExists) => String::from_str("Remote branch already exists."),
            WsError::Validation(Invalid::MalformedList) => String::from_str("Stored workspace list is malformed."),
            WsError::Filesystem(m) => m.clone(),
            WsError::Git(d) => d.clone(),
            WsError::ApplyFailed => String::from_str("Git apply failed."),
            WsError::Conflict => String::from_str("Applied with conflicts. Resolve conflicts in the parent repo before retrying."),
            WsError::PartialApply => String::from_str("Patch applied partially. Resolve changes in the parent repo before retrying."),
            WsError::NoChanges => String::from_str("No changes to apply."),
            WsError::DirtyParent => String::from_str("Your current branch has uncommitted changes. Please commit, stash, or discard them before applying worktree changes."),
            WsError::Spawn(m) => m.clone(),
            WsError::Remote(m) => m.clone(),
        }
    }
}

} // verus!
