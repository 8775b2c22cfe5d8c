//! Git command gateway: argv construction and failure classification.
//!
//! Every git invocation is argv-based — never shell-interpolated — so paths
//! and branch names cannot inject further arguments.  The builders here
//! produce the exact argument vectors the embedding application hands to
//! the git binary, and the classifiers decide what a non-zero exit means.

use vstd::prelude::*;

use crate::text::{has_substring, str_contains};

verus! {

/// `git clone <source> <destination>`.
pub fn clone_args(source: &String, destination: &String) -> (r: Vec<String>)
    ensures
        r.deep_view() =~= seq!["clone"@, source@, destination@],
{
    let mut out: Vec<String> = Vec::new();
    out.push(String::from_str("clone"));
    out.push(source.clone());
    out.push(destination.clone());
    proof {
        assert(out.deep_view() =~= seq!["clone"@, source@, destination@]);
    }
    out
}

/// `git remote set-url origin <url>`.
pub fn remote_set_url_args(url: &String) -> (r: Vec<String>)
    ensures
        r.deep_view() =~= seq!["remote"@, "set-url"@, "origin"@, url@],
{
    let mut out: Vec<String> = Vec::new();
    out.push(String::from_str("remote"));
    out.push(String::from_str("set-url"));
    out.push(String::from_str("origin"));
    out.push(url.clone());
    proof {
        assert(out.deep_view() =~= seq!["remote"@, "set-url"@, "origin"@, url@]);
    }
    out
}

/// `git worktree add <path> <branch>` — check out an existing branch.
pub fn worktree_add_args(path: &String, branch: &String) -> (r: Vec<String>)
    ensures
        r.deep_view() =~= seq!["worktree"@, "add"@, path@, branch@],
{
    let mut out: Vec<String> = Vec::new();
    out.push(String::from_str("worktree"));
    out.push(String::from_str("add"));
    out.push(path.clone());
    out.push(branch.clone());
    proof {
        assert(out.deep_view() =~= seq!["worktree"@, "add"@, path@, branch@]);
    }
    out
}

/// `git worktree add -b <branch> <path>` — create the branch as well.
pub fn worktree_add_new_branch_args(path: &String, branch: &String) -> (r: Vec<String>)
    ensures
        r.deep_view() =~= seq!["worktree"@, "add"@, "-b"@, branch@, path@],
{
    let mut out: Vec<String> = Vec::new();
    out.push(String::from_str("worktree"));
    out.push(String::from_str("add"));
    out.push(String::from_str("-b"));
    out.push(branch.clone());
    out.push(path.clone());
    proof {
        assert(out.deep_view() =~= seq!["worktree"@, "add"@, "-b"@, branch@, path@]);
    }
    out
}

/// `git worktree remove --force <path>`.
pub fn worktree_remove_args(path: &String) -> (r: Vec<String>)
    ensures
        r.deep_view() =~= seq!["worktree"@, "remove"@, "--force"@, path@],
{
    let mut out: Vec<String> = Vec::new();
    out.push(String::from_str("worktree"));
    out.push(String::from_str("remove"));
    out.push(String::from_str("--force"));
    out.push(path.clone());
    proof {
        assert(out.deep_view() =~= seq!["worktree"@, "remove"@, "--force"@, path@]);
    }
    out
}

/// `git worktree prune --expire now`.
pub fn worktree_prune_args() -> (r: Vec<String>)
    ensures
        r.deep_view() =~= seq!["worktree"@, "prune"@, "--expire"@, "now"@],
{
    let mut out: Vec<String> = Vec::new();
    out.push(String::from_str("worktree"));
    out.push(String::from_str("prune"));
    out.push(String::from_str("--expire"));
    out.push(String::from_str("now"));
    proof {
        assert(out.deep_view() =~= seq!["worktree"@, "prune"@, "--expire"@, "now"@]);
    }
    out
}

/// `git branch -m <old> <new>`.
pub fn branch_move_args(old_name: &String, new_name: &String) -> (r: Vec<String>)
    ensures
        r.deep_view() =~= seq!["branch"@, "-m"@, old_name@, new_name@],
{
    let mut out: Vec<String> = Vec::new();
    out.push(String::from_str("branch"));
    out.push(String::from_str("-m"));
    out.push(old_name.clone());
    out.push(new_name.clone());
    proof {
        assert(out.deep_view() =~= seq!["branch"@, "-m"@, old_name@, new_name@]);
    }
    out
}

/// `git worktree move <from> <to>`.
pub fn worktree_move_args(from_path: &String, to_path: &String) -> (r: Vec<String>)
    ensures
        r.deep_view() =~= seq!["worktree"@, "move"@, from_path@, to_path@],
{
    let mut out: Vec<String> = Vec::new();
    out.push(String::from_str("worktree"));
    out.push(String::from_str("move"));
    out.push(from_path.clone());
    out.push(to_path.clone());
    proof {
        assert(out.deep_view() =~= seq!["worktree"@, "move"@, from_path@, to_path@]);
    }
    out
}

/// `git push <remote> <branch>:<branch>`.
pub fn push_branch_pair_args(remote: &String, branch: &String) -> (r: Vec<String>)
    ensures
        r.deep_view() =~= seq!["push"@, remote@, branch@ + ":"@ + branch@],
{
    let mut out: Vec<String> = Vec::new();
    out.push(String::from_str("push"));
    out.push(remote.clone());
    out.push(branch.clone().concat(":").concat(branch.as_str()));
    proof {
        assert(out.deep_view() =~= seq!["push"@, remote@, branch@ + ":"@ + branch@]);
    }
    out
}

/// `git push <remote> :<branch>` — delete the remote ref.
pub fn push_delete_args(remote: &String, branch: &String) -> (r: Vec<String>)
    ensures
        r.deep_view() =~= seq!["push"@, remote@, ":"@ + branch@],
{
    let mut out: Vec<String> = Vec::new();
    out.push(String::from_str("push"));
    out.push(remote.clone());
    out.push(String::from_str(":").concat(branch.as_str()));
    proof {
        assert(out.deep_view() =~= seq!["push"@, remote@, ":"@ + branch@]);
    }
    out
}

/// `git push <remote> <branch>`.
pub fn push_simple_args(remote: &String, branch: &String) -> (r: Vec<String>)
    ensures
        r.deep_view() =~= seq!["push"@, remote@, branch@],
{
    let mut out: Vec<String> = Vec::new();
    out.push(String::from_str("push"));
    out.push(remote.clone());
    out.push(branch.clone());
    proof {
        assert(out.deep_view() =~= seq!["push"@, remote@, branch@]);
    }
    out
}

/// `git branch --set-upstream-to <remote>/<branch> <branch>`.
pub fn set_upstream_args(remote: &String, branch: &String) -> (r: Vec<String>)
    ensures
        r.deep_view() =~= seq!["branch"@, "--set-upstream-to"@, remote@ + "/"@ + branch@, branch@],
{
    let mut out: Vec<String> = Vec::new();
    out.push(String::from_str("branch"));
    out.push(String::from_str("--set-upstream-to"));
    out.push(remote.clone().concat("/").concat(branch.as_str()));
    out.push(branch.clone());
    proof {
        assert(out.deep_view() =~= seq!["branch"@, "--set-upstream-to"@, remote@ + "/"@ + branch@, branch@]);
    }
    out
}

/// `git status --porcelain`.
pub fn status_porcelain_args() -> (r: Vec<String>)
    ensures
        r.deep_view() =~= seq!["status"@, "--porcelain"@],
{
    let mut out: Vec<String> = Vec::new();
    out.push(String::from_str("status"));
    out.push(String::from_str("--porcelain"));
    proof {
        assert(out.deep_view() =~= seq!["status"@, "--porcelain"@]);
    }
    out
}

/// `git diff --binary --no-color --cached` — the staged changes.
pub fn diff_cached_args() -> (r: Vec<String>)
    ensures
        r.deep_view() =~= seq!["diff"@, "--binary"@, "--no-color"@, "--cached"@],
{
    let mut out: Vec<String> = Vec::new();
    out.push(String::from_str("diff"));
    out.push(String::from_str("--binary"));
    out.push(String::from_str("--no-color"));
    out.push(String::from_str("--cached"));
    proof {
        assert(out.deep_view() =~= seq!["diff"@, "--binary"@, "--no-color"@, "--cached"@]);
    }
    out
}

/// `git diff --binary --no-color` — the unstaged changes.
pub fn diff_args() -> (r: Vec<String>)
    ensures
        r.deep_view() =~= seq!["diff"@, "--binary"@, "--no-color"@],
{
    let mut out: Vec<String> = Vec::new();
    out.push(String::from_str("diff"));
    out.push(String::from_str("--binary"));
    out.push(String::from_str("--no-color"));
    proof {
        assert(out.deep_view() =~= seq!["diff"@, "--binary"@, "--no-color"@]);
    }
    out
}

/// `git ls-files --others --exclude-standard -z` — untracked files, NUL-separated to tolerate arbitrary file names.
pub fn ls_untracked_args() -> (r: Vec<String>)
    ensures
        r.deep_view() =~= seq!["ls-files"@, "--others"@, "--exclude-standard"@, "-z"@],
{
    let mut out: Vec<String> = Vec::new();
    out.push(String::from_str("ls-files"));
    out.push(String::from_str("--others"));
    out.push(String::from_str("--exclude-standard"));
    out.push(String::from_str("-z"));
    proof {
        assert(out.deep_view() =~= seq!["ls-files"@, "--others"@, "--exclude-standard"@, "-z"@]);
    }
    out
}

/// `git diff --binary --no-color --no-index -- <null device> <path>` — a synthesized diff of an untracked file against nothing.
pub fn diff_untracked_args(null_device: &String, path: &String) -> (r: Vec<String>)
    ensures
        r.deep_view() =~= seq!["diff"@, "--binary"@, "--no-color"@, "--no-index"@, "--"@, null_device@, path@],
{
    let mut out: Vec<String> = Vec::new();
    out.push(String::from_str("diff"));
    out.push(String::from_str("--binary"));
    out.push(String::from_str("--no-color"));
    out.push(String::from_str("--no-index"));
    out.push(String::from_str("--"));
    out.push(null_device.clone());
    out.push(path.clone());
    proof {
        assert(out.deep_view() =~= seq!["diff"@, "--binary"@, "--no-color"@, "--no-index"@, "--"@, null_device@, path@]);
    }
    out
}

/// `git apply --3way --whitespace=nowarn -` — apply a patch from stdin with a three-way merge.
pub fn apply_3way_args() -> (r: Vec<String>)
    ensures
        r.deep_view() =~= seq!["apply"@, "--3way"@, "--whitespace=nowarn"@, "-"@],
{
    let mut out: Vec<String> = Vec::new();
    out.push(String::from_str("apply"));
    out.push(String::from_str("--3way"));
    out.push(String::from_str("--whitespace=nowarn"));
    out.push(String::from_str("-"));
    proof {
        assert(out.deep_view() =~= seq!["apply"@, "--3way"@, "--whitespace=nowarn"@, "-"@]);
    }
    out
}

/// The stderr pattern git prints when a directory is not a registered
/// worktree.
pub open spec fn missing_worktree_marker() -> Seq<char> {
    "is not a working tree"@
}

/// Whether a git failure means the worktree is already gone (safe to clean
/// up the directory) rather than a genuine error.
pub fn is_missing_worktree_error(stderr: &String) -> (r: bool)
    ensures
        r == has_substring(stderr@, missing_worktree_marker()),
{
    str_contains(stderr.as_str(), "is not a working tree")
}

/// The next step after one `git worktree remove` attempt.
#[derive(Clone, Copy, Debug, PartialEq, Eq, Structural)]
pub enum RemoveStep {
    /// The worktree is gone; move on to the next child.
    Done,
    /// Git no longer knows the worktree but the directory remains: delete
    /// the directory itself.
    RemoveDir,
    /// A genuine git failure: abort the whole operation.
    Fail,
}

/// Decides what a `git worktree remove` outcome means: success (or an
/// "already missing" report with no directory left) finishes the child; an
/// "already missing" report with the directory still present asks for a
/// plain directory removal; anything else aborts.
pub fn decide_worktree_remove(outcome: &Result<(), String>, dir_exists: bool) -> (r: RemoveStep)
    ensures
        outcome is Ok ==> r == RemoveStep::Done,
        outcome matches Err(e) && has_substring(e@, missing_worktree_marker()) && dir_exists
            ==> r == RemoveStep::RemoveDir,
        outcome matches Err(e) && has_substring(e@, missing_worktree_marker()) && !dir_exists
            ==> r == RemoveStep::Done,
        outcome matches Err(e) && !has_substring(e@, missing_worktree_marker()) ==> r
            == RemoveStep::Fail,
{
    match outcome {
        Result::Ok(_) => RemoveStep::Done,
        Result::Err(e) => {
            if is_missing_worktree_error(e) {
                if dir_exists {
                    RemoveStep::RemoveDir
                } else {
                    RemoveStep::Done
                }
            } else {
                RemoveStep::Fail
            }
        },
    }
}

} // verus!
