//! Worktree change reconciler: building the combined patch from a
//! worktree's staged, unstaged and untracked changes, gating it, and
//! classifying the outcome of the three-way apply against the parent.

use vstd::prelude::*;

use crate::errors::{Missing, WrongKind, WsError};
use crate::registry::{entry_of, has_id};
use crate::text::{blank_bytes, bytes_blank, has_substring, trim_spec, trim_string};

verus! {

/// The index of the first NUL byte at or after `pos` (or the length).
pub open spec fn first_nul(s: Seq<u8>, pos: int) -> int
    decreases s.len() - pos,
{
    if pos >= s.len() {
        s.len() as int
    } else if s[pos] == 0 {
        pos
    } else {
        first_nul(s, pos + 1)
    }
}

/// The NUL-separated pieces of `s` from `pos` on, empty pieces dropped.
pub open spec fn split_nul_from(s: Seq<u8>, pos: int) -> Seq<Seq<u8>>
    decreases s.len() - pos,
    via split_nul_from_dec
{
    if pos < 0 || pos >= s.len() {
        Seq::empty()
    } else {
        let k = first_nul(s, pos);
        let rest = if k < s.len() {
            split_nul_from(s, k + 1)
        } else {
            Seq::empty()
        };
        if k > pos {
            seq![s.subrange(pos, k)] + rest
        } else {
            rest
        }
    }
}

/// The NUL-separated pieces of `s`, empty pieces dropped — how the
/// untracked-file listing is parsed, so arbitrary file names survive.
pub open spec fn split_nul_spec(s: Seq<u8>) -> Seq<Seq<u8>> {
    split_nul_from(s, 0)
}

#[via_fn]
proof fn split_nul_from_dec(s: Seq<u8>, pos: int) {
    if !(pos < 0 || pos >= s.len()) {
        lemma_first_nul(s, pos);
    }
}

/// `first_nul` lands on a NUL (or the end), and nothing before it is NUL.
proof fn lemma_first_nul(s: Seq<u8>, pos: int)
    requires
        0 <= pos <= s.len(),
    ensures
        pos <= first_nul(s, pos) <= s.len(),
        first_nul(s, pos) < s.len() ==> s[first_nul(s, pos)] == 0,
        forall|j: int| pos <= j < first_nul(s, pos) ==> s[j] != 0,
    decreases s.len() - pos,
{
    if pos < s.len() && s[pos] != 0 {
        lemma_first_nul(s, pos + 1);
    }
}

/// Splits the NUL-separated listing into its non-empty pieces.
pub fn split_nul(b: &Vec<u8>) -> (r: Vec<Vec<u8>>)
    ensures
        r.deep_view() == split_nul_spec(b@),
{
    let n = b.len();
    let mut out: Vec<Vec<u8>> = Vec::new();
    let mut pos: usize = 0;
    while pos < n
        invariant
            pos <= n,
            n == b@.len(),
            split_nul_spec(b@) == out.deep_view() + split_nul_from(b@, pos as int),
        decreases n - pos,
    {
        let mut k: usize = pos;
        while k < n && b[k] != 0
            invariant
                pos <= k <= n,
                n == b@.len(),
                forall|j: int| pos <= j < k ==> b@[j] != 0,
            decreases n - k,
        {
            k += 1;
        }
        proof {
            lemma_first_nul(b@, pos as int);
            assert(k == first_nul(b@, pos as int)) by {
                if k < first_nul(b@, pos as int) {
                    assert(b@[k as int] != 0);
                }
                if k > first_nul(b@, pos as int) {
                    assert(b@[first_nul(b@, pos as int)] != 0);
                }
            }
        }
        if k > pos {
            let mut piece: Vec<u8> = Vec::new();
            let mut q: usize = pos;
            while q < k
                invariant
                    pos <= q <= k <= n,
                    n == b@.len(),
                    piece@ =~= b@.subrange(pos as int, q as int),
                decreases k - q,
            {
                piece.push(b[q]);
                proof {
                    assert(piece@ =~= b@.subrange(pos as int, q + 1 as int));
                }
                q += 1;
            }
            let ghost pre = out.deep_view();
            out.push(piece);
            proof {
                assert(out.deep_view() =~~= pre.push(b@.subrange(pos as int, k as int)));
                assert(split_nul_from(b@, pos as int) =~~= seq![
                    b@.subrange(pos as int, k as int),
                ] + split_nul_from(b@, k + 1 as int));
                assert(pre + split_nul_from(b@, pos as int) =~~= out.deep_view()
                    + split_nul_from(b@, k + 1 as int));
            }
        } else {
            proof {
                assert(split_nul_from(b@, pos as int) == split_nul_from(b@, k + 1 as int));
            }
        }
        pos = if k < n {
            k + 1
        } else {
            n
        };
        proof {
            if k == n {
                assert(split_nul_from(b@, n as int) =~= Seq::<Seq<u8>>::empty());
                assert(split_nul_from(b@, k + 1 as int) =~= Seq::<Seq<u8>>::empty());
            }
        }
    }
    proof {
        assert(split_nul_from(b@, pos as int) =~~= Seq::<Seq<u8>>::empty());
        assert(out.deep_view() =~~= split_nul_spec(b@));
    }
    out
}

/// Appends every byte of `src` to `dst`.
pub fn append_bytes(dst: &mut Vec<u8>, src: &Vec<u8>)
    ensures
        final(dst)@ == old(dst)@ + src@,
{
    let mut i: usize = 0;
    while i < src.len()
        invariant
            i <= src.len(),
            dst@ =~= old(dst)@ + src@.take(i as int),
        decreases src.len() - i,
    {
        dst.push(src[i]);
        proof {
            assert(dst@ =~= old(dst)@ + src@.take(i + 1 as int));
        }
        i += 1;
    }
    proof {
        assert(dst@ =~= old(dst)@ + src@);
    }
}

/// The combined patch: staged diff, then unstaged diff, then one
/// synthesized diff per untracked file, in listing order.
pub open spec fn patch_spec(staged: Seq<u8>, unstaged: Seq<u8>, untracked: Seq<Seq<u8>>) -> Seq<
    u8,
> {
    staged + unstaged + untracked.flatten()
}

/// Concatenates the three diff streams into one binary patch buffer.
pub fn assemble_patch(staged: &Vec<u8>, unstaged: &Vec<u8>, untracked: &Vec<Vec<u8>>) -> (r: Vec<
    u8,
>)
    ensures
        r@ == patch_spec(staged@, unstaged@, untracked.deep_view()),
{
    let mut out: Vec<u8> = Vec::new();
    append_bytes(&mut out, staged);
    append_bytes(&mut out, unstaged);
    let mut i: usize = 0;
    while i < untracked.len()
        invariant
            i <= untracked.len(),
            out@ =~= staged@ + unstaged@ + untracked.deep_view().take(i as int).flatten(),
        decreases untracked.len() - i,
    {
        append_bytes(&mut out, &untracked[i]);
        proof {
            let dv = untracked.deep_view();
            assert(dv.take(i + 1 as int).drop_last() =~= dv.take(i as int));
            dv.take(i + 1 as int).lemma_flatten_and_flatten_alt_are_equivalent();
            dv.take(i as int).lemma_flatten_and_flatten_alt_are_equivalent();
            assert(dv.take(i + 1 as int).flatten_alt() == dv.take(
                i as int,
            ).flatten_alt() + dv.take(i + 1 as int).last());
            assert(dv.take(i + 1 as int).last() == dv[i as int]);
            assert(out@ =~= staged@ + unstaged@ + dv.take(i + 1 as int).flatten());
        }
        i += 1;
    }
    proof {
        assert(untracked.deep_view().take(untracked@.len() as int) =~= untracked.deep_view());
        assert(out@ =~= patch_spec(staged@, unstaged@, untracked.deep_view()));
    }
    out
}

/// Gate on the parent's porcelain status: the parent must have zero
/// uncommitted changes before a patch may be applied to it.
pub fn gate_parent_clean(status: &Vec<u8>) -> (r: Result<(), WsError>)
    ensures
        blank_bytes(status@) ==> r is Ok,
        !blank_bytes(status@) ==> (r matches Result::Err(e) && e matches WsError::DirtyParent),
{
    if bytes_blank(status) {
        Result::Ok(())
    } else {
        Result::Err(WsError::DirtyParent)
    }
}

/// Gate on the combined patch: an all-whitespace (or empty) patch means
/// there is nothing to apply, which is reported as an error — callers
/// must be able to tell "nothing to do" from "succeeded".  Running the
/// reconciliation twice without intervening edits hits this gate the
/// same way both times.
pub fn gate_patch_nonempty(patch: &Vec<u8>) -> (r: Result<(), WsError>)
    ensures
        blank_bytes(patch@) ==> (r matches Result::Err(e) && e matches WsError::NoChanges),
        !blank_bytes(patch@) ==> r is Ok,
{
    if bytes_blank(patch) {
        Result::Err(WsError::NoChanges)
    } else {
        Result::Ok(())
    }
}

/// The detail text of a failed apply: trimmed stderr if any remains,
/// else trimmed stdout.
pub open spec fn apply_detail(stdout: Seq<char>, stderr: Seq<char>) -> Seq<char> {
    if trim_spec(stderr).len() > 0 {
        trim_spec(stderr)
    } else {
        trim_spec(stdout)
    }
}

/// Classifies the outcome of `git apply --3way`: success passes through;
/// otherwise the detail text decides between a conflict report, a
/// partial application, a raw git failure, and a failure with no detail
/// at all.  The result is a function of the three inputs alone.
pub fn classify_apply(success: bool, stdout: &String, stderr: &String) -> (r: Result<(), WsError>)
    ensures
        success ==> r is Ok,
        !success ==> {
            let d = apply_detail(stdout@, stderr@);
            if d.len() == 0 {
                r matches Result::Err(e) && e matches WsError::ApplyFailed
            } else if has_substring(d, "Applied patch to"@) && has_substring(
                d,
                "with conflicts"@,
            ) {
                r matches Result::Err(e) && e matches WsError::Conflict
            } else if has_substring(d, "Applied patch to"@) {
                r matches Result::Err(e) && e matches WsError::PartialApply
            } else {
                r matches Result::Err(e) && (e matches WsError::Git(m) && m@ == d)
            }
        },
{
    if success {
        return Result::Ok(());
    }
    let errt = trim_string(stderr);
    let detail = if errt.as_str().unicode_len() > 0 {
        errt
    } else {
        trim_string(stdout)
    };
    if detail.as_str().unicode_len() == 0 {
        return Result::Err(WsError::ApplyFailed);
    }
    if crate::text::str_contains(detail.as_str(), "Applied patch to") {
        if crate::text::str_contains(detail.as_str(), "with conflicts") {
            return Result::Err(WsError::Conflict);
        }
        return Result::Err(WsError::PartialApply);
    }
    Result::Err(WsError::Git(detail))
}

/// The flattening of a list of buffers is whitespace throughout exactly
/// when every buffer is.
proof fn lemma_flatten_blank(pieces: Seq<Seq<u8>>)
    ensures
        blank_bytes(pieces.flatten()) <==> (forall|k: int|
            0 <= k < pieces.len() ==> blank_bytes(#[trigger] pieces[k])),
    decreases pieces.len(),
{
    if pieces.len() == 0 {
        assert(pieces.flatten() =~= Seq::<u8>::empty());
    } else {
        lemma_flatten_blank(pieces.drop_first());
        assert(pieces.flatten() == pieces.first() + pieces.drop_first().flatten());
        let f = pieces.first();
        let rest = pieces.drop_first().flatten();
        if blank_bytes(pieces.flatten()) {
            assert forall|j: int| 0 <= j < f.len() implies crate::text::is_ws_byte(f[j]) by {
                assert(pieces.flatten()[j] == f[j]);
            }
            assert forall|j: int| 0 <= j < rest.len() implies crate::text::is_ws_byte(
                rest[j],
            ) by {
                assert(pieces.flatten()[f.len() + j] == rest[j]);
            }
            assert forall|k: int| 0 <= k < pieces.len() implies blank_bytes(
                #[trigger] pieces[k],
            ) by {
                if k > 0 {
                    assert(pieces.drop_first()[k - 1] == pieces[k]);
                }
            }
        }
        if forall|k: int| 0 <= k < pieces.len() ==> blank_bytes(#[trigger] pieces[k]) {
            assert forall|k: int| 0 <= k < pieces.drop_first().len() implies blank_bytes(
                #[trigger] pieces.drop_first()[k],
            ) by {
                assert(pieces.drop_first()[k] == pieces[k + 1]);
            }
            assert forall|j: int| 0 <= j < pieces.flatten().len() implies crate::text::is_ws_byte(
                pieces.flatten()[j],
            ) by {
                if j < f.len() {
                    assert(pieces.flatten()[j] == f[j]);
                } else {
                    assert(pieces.flatten()[j] == rest[j - f.len()]);
                }
            }
        }
    }
}

/// When the combined patch counts as empty: exactly when the staged and
/// unstaged diffs and every synthesized untracked diff are whitespace
/// throughout.  The test is a function of the diff streams alone, so a
/// worktree with no staged, unstaged or untracked changes fails with
/// "no changes to apply" every time it is reconciled, identically on
/// every run without intervening edits.
pub proof fn lemma_empty_patch_iff_no_changes(
    staged: Seq<u8>,
    unstaged: Seq<u8>,
    untracked: Seq<Seq<u8>>,
)
    ensures
        blank_bytes(patch_spec(staged, unstaged, untracked)) <==> (blank_bytes(staged)
            && blank_bytes(unstaged) && (forall|k: int|
            0 <= k < untracked.len() ==> blank_bytes(#[trigger] untracked[k]))),
{
    lemma_flatten_blank(untracked);
    let p = patch_spec(staged, unstaged, untracked);
    let fl = untracked.flatten();
    if blank_bytes(p) {
        assert forall|j: int| 0 <= j < staged.len() implies crate::text::is_ws_byte(
            staged[j],
        ) by {
            assert(p[j] == staged[j]);
        }
        assert forall|j: int| 0 <= j < unstaged.len() implies crate::text::is_ws_byte(
            unstaged[j],
        ) by {
            assert(p[staged.len() + j] == unstaged[j]);
        }
        assert forall|j: int| 0 <= j < fl.len() implies crate::text::is_ws_byte(fl[j]) by {
            assert(p[staged.len() + unstaged.len() + j] == fl[j]);
        }
    }
    if blank_bytes(staged) && blank_bytes(unstaged) && blank_bytes(fl) {
        assert forall|j: int| 0 <= j < p.len() implies crate::text::is_ws_byte(p[j]) by {
            if j < staged.len() {
                assert(p[j] == staged[j]);
            } else if j < staged.len() + unstaged.len() {
                assert(p[j] == unstaged[j - staged.len()]);
            } else {
                assert(p[j] == fl[j - staged.len() - unstaged.len()]);
            }
        }
    }
}

/// The paths and git commands `apply_worktree_changes` needs: the
/// worktree's and the parent's roots and the diff/status invocations.
pub struct ApplyPlan {
    /// The worktree's own path.
    pub worktree_path: String,
    /// The parent repository's path.
    pub parent_path: String,
    /// `git status --porcelain`, run in the parent.
    pub status_cmd: Vec<String>,
    /// `git diff --binary --no-color --cached`, run in the worktree.
    pub staged_cmd: Vec<String>,
    /// `git diff --binary --no-color`, run in the worktree.
    pub unstaged_cmd: Vec<String>,
    /// `git ls-files --others --exclude-standard -z`, run in the worktree.
    pub untracked_cmd: Vec<String>,
    /// `git apply --3way --whitespace=nowarn -`, run in the parent.
    pub apply_cmd: Vec<String>,
}

impl crate::orchestrate::Core {
    /// Validates `apply_worktree_changes`: the target must be a worktree
    /// with a registered parent; the plan carries both roots and the git
    /// invocations for the status gate, the three diff streams and the
    /// final three-way apply.
    pub fn plan_apply_changes(&self, id: &String) -> (r: Result<ApplyPlan, WsError>)
        requires
            self.wf(),
        ensures
            !has_id(self.registry.models(), id@) ==> (r matches Result::Err(e) && e matches
                WsError::NotFound(Missing::Workspace)),
            has_id(self.registry.models(), id@) && entry_of(self.registry.models(), id@).kind
                is Main ==> (r matches Result::Err(e) && e matches WsError::InvalidOperation(
                WrongKind::NotAWorktree,
            )),
            has_id(self.registry.models(), id@) && entry_of(self.registry.models(), id@).kind
                is Worktree ==> (r matches Result::Ok(p) && {
                let e = entry_of(self.registry.models(), id@);
                &&& p.worktree_path@ == e.path
                &&& p.parent_path@ == entry_of(
                    self.registry.models(),
                    e.kind->Worktree_parent_id,
                ).path
                &&& p.status_cmd.deep_view() =~= seq!["status"@, "--porcelain"@]
                &&& p.staged_cmd.deep_view() =~= seq![
                    "diff"@,
                    "--binary"@,
                    "--no-color"@,
                    "--cached"@,
                ]
                &&& p.unstaged_cmd.deep_view() =~= seq!["diff"@, "--binary"@, "--no-color"@]
                &&& p.untracked_cmd.deep_view() =~= seq![
                    "ls-files"@,
                    "--others"@,
                    "--exclude-standard"@,
                    "-z"@,
                ]
                &&& p.apply_cmd.deep_view() =~= seq![
                    "apply"@,
                    "--3way"@,
                    "--whitespace=nowarn"@,
                    "-"@,
                ]
            }),
    {
        let i = match self.registry.find(id) {
            Option::Some(i) => i,
            Option::None => {
                return Result::Err(WsError::NotFound(Missing::Workspace));
            },
        };
        proof {
            crate::registry::lemma_entry_of_known(self.registry.models(), id@, i as int);
        }
        let entry = self.registry.entries[i].clone();
        let parent_id = match &entry.kind {
            crate::types::WorkspaceKind::Worktree { parent_id, .. } => parent_id.clone(),
            crate::types::WorkspaceKind::Main => {
                return Result::Err(WsError::InvalidOperation(WrongKind::NotAWorktree));
            },
        };
        let pj = match self.registry.find(&parent_id) {
            Option::Some(pj) => pj,
            Option::None => {
                proof {
                    // This arm cannot be reached: the preconditions pin the
                    // entry down.
                    assert(false);
                }
                return Result::Err(WsError::NotFound(Missing::WorktreeParent));
            },
        };
        proof {
            crate::registry::lemma_entry_of_known(self.registry.models(), parent_id@, pj as int);
        }
        let parent_path = self.registry.entries[pj].path.clone();
        Result::Ok(
            ApplyPlan {
                worktree_path: entry.path,
                parent_path,
                status_cmd: crate::gitcmd::status_porcelain_args(),
                staged_cmd: crate::gitcmd::diff_cached_args(),
                unstaged_cmd: crate::gitcmd::diff_args(),
                untracked_cmd: crate::gitcmd::ls_untracked_args(),
                apply_cmd: crate::gitcmd::apply_3way_args(),
            },
        )
    }
}

} // verus!
