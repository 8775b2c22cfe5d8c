//! Workspace/session orchestration core.
//!
//! The library maintains a registry of workspace entries (main repositories
//! and Git worktrees derived from them) together with the live process
//! sessions bound to them.  All decision logic — validation, settings
//! cascading, worktree naming, git command construction, outcome
//! classification, and the registry/session mutations with their rollback
//! rules — is verified here.  Filesystem, process and network effects are
//! performed by the embedding application, which feeds their outcomes back
//! into the verified commit steps as plain values.

pub mod cascade;
pub mod errors;
pub mod gitcmd;
pub mod naming;
pub mod orchestrate;
pub mod reconcile;
pub mod registry;
pub mod remote;
pub mod sessions;
pub mod sorting;
pub mod text;
pub mod types;
