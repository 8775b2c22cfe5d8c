//! The stable order `list_workspaces` presents: kind first (main
//! repositories before worktrees), then display name, case-insensitively.

use vstd::prelude::*;

use crate::types::{InfoModel, KindModel, WorkspaceInfo};

verus! {

/// ASCII lowercase folding of one character.
pub open spec fn lower_char(c: char) -> char {
    if c == 'A' {
        'a'
    } else if c == 'B' {
        'b'
    } else if c == 'C' {
        'c'
    } else if c == 'D' {
        'd'
    } else if c == 'E' {
        'e'
    } else if c == 'F' {
        'f'
    } else if c == 'G' {
        'g'
    } else if c == 'H' {
        'h'
    } else if c == 'I' {
        'i'
    } else if c == 'J' {
        'j'
    } else if c == 'K' {
        'k'
    } else if c == 'L' {
        'l'
    } else if c == 'M' {
        'm'
    } else if c == 'N' {
        'n'
    } else if c == 'O' {
        'o'
    } else if c == 'P' {
        'p'
    } else if c == 'Q' {
        'q'
    } else if c == 'R' {
        'r'
    } else if c == 'S' {
        's'
    } else if c == 'T' {
        't'
    } else if c == 'U' {
        'u'
    } else if c == 'V' {
        'v'
    } else if c == 'W' {
        'w'
    } else if c == 'X' {
        'x'
    } else if c == 'Y' {
        'y'
    } else if c == 'Z' {
        'z'
    } else {
        c
    }
}

/// Executable ASCII lowercase folding.
pub fn lower_char_exec(c: char) -> (r: char)
    ensures
        r == lower_char(c),
{
    if c >= 'A' && c <= 'Z' {
        if c == 'A' { 'a' } else if c == 'B' { 'b' } else if c == 'C' { 'c' } else if c == 'D' { 'd' }
        else if c == 'E' { 'e' } else if c == 'F' { 'f' } else if c == 'G' { 'g' } else if c == 'H' { 'h' }
        else if c == 'I' { 'i' } else if c == 'J' { 'j' } else if c == 'K' { 'k' } else if c == 'L' { 'l' }
        else if c == 'M' { 'm' } else if c == 'N' { 'n' } else if c == 'O' { 'o' } else if c == 'P' { 'p' }
        else if c == 'Q' { 'q' } else if c == 'R' { 'r' } else if c == 'S' { 's' } else if c == 'T' { 't' }
        else if c == 'U' { 'u' } else if c == 'V' { 'v' } else if c == 'W' { 'w' } else if c == 'X' { 'x' }
        else if c == 'Y' { 'y' } else { 'z' }
    } else {
        c
    }
}

/// Case-insensitive lexicographic "less than or equal" on names.
pub open spec fn ci_le(a: Seq<char>, b: Seq<char>) -> bool
    decreases a.len(),
{
    if a.len() == 0 {
        true
    } else if b.len() == 0 {
        false
    } else if lower_char(a[0]) != lower_char(b[0]) {
        (lower_char(a[0]) as u32) < (lower_char(b[0]) as u32)
    } else {
        ci_le(a.skip(1), b.skip(1))
    }
}

/// The case-insensitive order relates every pair of names.
pub proof fn lemma_ci_le_total(a: Seq<char>, b: Seq<char>)
    ensures
        ci_le(a, b) || ci_le(b, a),
    decreases a.len(),
{
    if a.len() > 0 && b.len() > 0 && lower_char(a[0]) == lower_char(b[0]) {
        lemma_ci_le_total(a.skip(1), b.skip(1));
    }
}

/// The case-insensitive order is transitive.
pub proof fn lemma_ci_le_trans(a: Seq<char>, b: Seq<char>, c: Seq<char>)
    requires
        ci_le(a, b),
        ci_le(b, c),
    ensures
        ci_le(a, c),
    decreases a.len(),
{
    if a.len() == 0 {
    } else if b.len() == 0 {
    } else if c.len() == 0 {
    } else {
        if lower_char(a[0]) == lower_char(b[0]) && lower_char(b[0]) == lower_char(c[0]) {
            lemma_ci_le_trans(a.skip(1), b.skip(1), c.skip(1));
        }
    }
}

/// Main repositories sort before worktrees.
pub open spec fn kind_rank(k: KindModel) -> int {
    match k {
        KindModel::Main => 0,
        KindModel::Worktree { .. } => 1,
    }
}

/// The snapshot order: kind, then name case-insensitively.
pub open spec fn info_le(a: InfoModel, b: InfoModel) -> bool {
    kind_rank(a.entry.kind) < kind_rank(b.entry.kind) || (kind_rank(a.entry.kind) == kind_rank(
        b.entry.kind,
    ) && ci_le(a.entry.name, b.entry.name))
}

/// The snapshot order relates every pair.
pub proof fn lemma_info_le_total(a: InfoModel, b: InfoModel)
    ensures
        info_le(a, b) || info_le(b, a),
{
    lemma_ci_le_total(a.entry.name, b.entry.name);
}

/// The snapshot order is transitive.
pub proof fn lemma_info_le_trans(a: InfoModel, b: InfoModel, c: InfoModel)
    requires
        info_le(a, b),
        info_le(b, c),
    ensures
        info_le(a, c),
{
    if kind_rank(a.entry.kind) == kind_rank(b.entry.kind) && kind_rank(b.entry.kind) == kind_rank(
        c.entry.kind,
    ) {
        lemma_ci_le_trans(a.entry.name, b.entry.name, c.entry.name);
    }
}

/// A sequence of snapshots in presentation order.
pub open spec fn sorted_infos(s: Seq<InfoModel>) -> bool {
    forall|i: int, j: int| 0 <= i < j < s.len() ==> info_le(s[i], s[j])
}

/// Compares two snapshots in the presentation order.
pub fn info_le_exec(a: &WorkspaceInfo, b: &WorkspaceInfo) -> (r: bool)
    ensures
        r == info_le(a@, b@),
{
    let ra: u8 = match &a.kind {
        crate::types::WorkspaceKind::Main => 0,
        crate::types::WorkspaceKind::Worktree { .. } => 1,
    };
    let rb: u8 = match &b.kind {
        crate::types::WorkspaceKind::Main => 0,
        crate::types::WorkspaceKind::Worktree { .. } => 1,
    };
    if ra != rb {
        return ra < rb;
    }
    let an = a.name.as_str().unicode_len();
    let bn = b.name.as_str().unicode_len();
    let mut i: usize = 0;
    proof {
        assert(a.name@.skip(0) =~= a.name@);
        assert(b.name@.skip(0) =~= b.name@);
    }
    loop
        invariant
            i <= an,
            i <= bn,
            an == a.name@.len(),
            bn == b.name@.len(),
            kind_rank(a@.entry.kind) == kind_rank(b@.entry.kind),
            ci_le(a.name@, b.name@) == ci_le(a.name@.skip(i as int), b.name@.skip(i as int)),
        decreases an - i,
    {
        if i >= an {
            proof {
                assert(a.name@.skip(i as int).len() == 0);
            }
            return true;
        }
        if i >= bn {
            proof {
                assert(b.name@.skip(i as int).len() == 0 && a.name@.skip(i as int).len() > 0);
            }
            return false;
        }
        let ca = lower_char_exec(a.name.as_str().get_char(i));
        let cb = lower_char_exec(b.name.as_str().get_char(i));
        proof {
            assert(a.name@.skip(i as int)[0] == a.name@[i as int]);
            assert(b.name@.skip(i as int)[0] == b.name@[i as int]);
        }
        if ca != cb {
            return (ca as u32) < (cb as u32);
        }
        proof {
            assert(a.name@.skip(i as int).skip(1) =~= a.name@.skip(i + 1 as int));
            assert(b.name@.skip(i as int).skip(1) =~= b.name@.skip(i + 1 as int));
        }
        i += 1;
    }
}

/// Sorts workspace snapshots into presentation order (a stable insertion
/// sort); the result holds exactly the snapshots given.
pub fn sort_infos(v: Vec<WorkspaceInfo>) -> (r: Vec<WorkspaceInfo>)
    ensures
        sorted_infos(r.deep_view()),
        r.deep_view().to_multiset() == v.deep_view().to_multiset(),
{
    broadcast use vstd::seq_lib::group_to_multiset_ensures;
    broadcast use vstd::multiset::group_multiset_axioms;

    let mut input = v;
    let mut out: Vec<WorkspaceInfo> = Vec::new();
    let n = input.len();
    let ghost vdv = input.deep_view();
    let mut i: usize = 0;
    while i < n
        invariant
            i <= n,
            n == input@.len(),
            input.deep_view() == vdv,
            sorted_infos(out.deep_view()),
            out.deep_view().to_multiset() == vdv.take(i as int).to_multiset(),
        decreases n - i,
    {
        let x = input[i].clone();
        let mut p: usize = 0;
        while p < out.len() && info_le_exec(&out[p], &x)
            invariant
                p <= out@.len(),
                forall|j: int| 0 <= j < p ==> info_le(#[trigger] out.deep_view()[j], x@),
            decreases out@.len() - p,
        {
            p += 1;
        }
        proof {
            if p < out@.len() {
                assert(!info_le(out.deep_view()[p as int], x@));
            }
        }
        let ghost pre = out.deep_view();
        out.insert(p, x);
        proof {
            let dv = out.deep_view();
            assert(dv =~= pre.insert(p as int, vdv[i as int]));
            pre.insert_ensures(p as int, vdv[i as int]);
            assert(forall|k: int| 0 <= k < p ==> #[trigger] dv[k] == pre[k]);
            assert(forall|k: int| p < k < dv.len() ==> #[trigger] dv[k] == pre[k - 1]);
            assert(dv[p as int] == vdv[i as int]);
            assert(sorted_infos(dv)) by {
                assert forall|j: int, k: int| 0 <= j < k < dv.len() implies info_le(
                    dv[j],
                    dv[k],
                ) by {
                    if p < pre.len() {
                        lemma_info_le_total(pre[p as int], vdv[i as int]);
                    }
                    if j < p && k == p {
                        assert(info_le(pre[j], vdv[i as int]));
                    } else if j == p && k > p {
                        assert(dv[k] == pre[k - 1]);
                        if p < pre.len() {
                            assert(info_le(vdv[i as int], pre[p as int]));
                            if k - 1 > p {
                                assert(info_le(pre[p as int], pre[k - 1]));
                                lemma_info_le_trans(vdv[i as int], pre[p as int], pre[k - 1]);
                            }
                        }
                    } else if j < p && k > p {
                        assert(dv[j] == pre[j] && dv[k] == pre[k - 1]);
                        assert(info_le(pre[j], pre[k - 1]));
                    } else if j > p && k > p {
                        assert(dv[j] == pre[j - 1] && dv[k] == pre[k - 1]);
                        assert(info_le(pre[j - 1], pre[k - 1]));
                    } else if j < p && k < p {
                        assert(dv[j] == pre[j] && dv[k] == pre[k]);
                    }
                }
            }
            assert(dv.to_multiset() == vdv.take(i + 1 as int).to_multiset()) by {
                dv.to_multiset_ensures();
                vdv.take(i as int).to_multiset_ensures();
                assert(dv.remove(p as int) =~= pre);
                assert(dv.remove(p as int).to_multiset() =~= dv.to_multiset().remove(
                    dv[p as int],
                ));
                assert(dv[p as int] == vdv[i as int]);
                assert(dv.to_multiset().contains(vdv[i as int])) by {
                    assert(dv.contains(vdv[i as int])) by {
                        assert(dv[p as int] == vdv[i as int]);
                    }
                }
                assert(dv.to_multiset() =~= pre.to_multiset().insert(vdv[i as int])) by {
                    assert(pre.to_multiset() == dv.to_multiset().remove(vdv[i as int]));
                }
                assert(vdv.take(i + 1 as int).drop_last() =~= vdv.take(i as int));
                assert(vdv.take(i + 1 as int) =~= vdv.take(i as int).push(vdv[i as int]));
                assert(vdv.take(i as int).push(vdv[i as int]).to_multiset() =~= vdv.take(
                    i as int,
                ).to_multiset().insert(vdv[i as int]));
            }
        }
        i += 1;
    }
    proof {
        assert(vdv.take(n as int) =~= vdv);
    }
    out
}

} // verus!
