//! Worktree naming and path resolution.
//!
//! Deterministic, collision-free allocation of worktree directory names and
//! branch names: a branch name is sanitized into a filesystem-safe segment,
//! and a numeric suffix (`-2`, `-3`, ...) is appended until the candidate
//! collides with nothing the caller reports as taken.

use vstd::prelude::*;

use crate::text::push_char;

verus! {

/// The decimal digit character for `d` (`d < 10`).
pub open spec fn digit_char(d: nat) -> char {
    if d == 0 {
        '0'
    } else if d == 1 {
        '1'
    } else if d == 2 {
        '2'
    } else if d == 3 {
        '3'
    } else if d == 4 {
        '4'
    } else if d == 5 {
        '5'
    } else if d == 6 {
        '6'
    } else if d == 7 {
        '7'
    } else if d == 8 {
        '8'
    } else {
        '9'
    }
}

/// The decimal rendering of `n`, most significant digit first.
pub open spec fn dec_spec(n: nat) -> Seq<char>
    decreases n,
{
    if n < 10 {
        seq![digit_char(n)]
    } else {
        dec_spec(n / 10).push(digit_char(n % 10))
    }
}

/// Every decimal rendering is non-empty, and has at least two digits for
/// `n >= 10`.
pub proof fn lemma_dec_shape(n: nat)
    ensures
        dec_spec(n).len() >= 1,
        n < 10 ==> dec_spec(n).len() == 1,
        n >= 10 ==> dec_spec(n).len() >= 2,
    decreases n,
{
    if n >= 10 {
        lemma_dec_shape(n / 10);
    }
}

/// Distinct numbers render to distinct decimal strings.
pub proof fn lemma_dec_injective(a: nat, b: nat)
    requires
        dec_spec(a) == dec_spec(b),
    ensures
        a == b,
    decreases a,
{
    lemma_dec_shape(a);
    lemma_dec_shape(b);
    if a < 10 && b < 10 {
        assert(dec_spec(a)[0] == digit_char(a));
        assert(dec_spec(b)[0] == digit_char(b));
    } else if a < 10 && b >= 10 {
        assert(dec_spec(a).len() == 1 && dec_spec(b).len() >= 2);
    } else if a >= 10 && b < 10 {
        assert(dec_spec(a).len() >= 2 && dec_spec(b).len() == 1);
    } else {
        assert(dec_spec(a).last() == digit_char(a % 10));
        assert(dec_spec(b).last() == digit_char(b % 10));
        assert(a % 10 == b % 10);
        assert(dec_spec(a).drop_last() =~= dec_spec(a / 10));
        assert(dec_spec(b).drop_last() =~= dec_spec(b / 10));
        assert(dec_spec(a / 10) == dec_spec(b / 10));
        lemma_dec_injective(a / 10, b / 10);
        assert(a == 10 * (a / 10) + a % 10);
        assert(b == 10 * (b / 10) + b % 10);
    }
}

/// The digit character of `d` as a string slice.
fn digit_str(d: u64) -> (r: &'static str)
    requires
        d < 10,
    ensures
        r@ =~= seq![digit_char(d as nat)],
{
    proof {
        reveal_strlit("0");
        reveal_strlit("1");
        reveal_strlit("2");
        reveal_strlit("3");
        reveal_strlit("4");
        reveal_strlit("5");
        reveal_strlit("6");
        reveal_strlit("7");
        reveal_strlit("8");
        reveal_strlit("9");
    }
    if d == 0 {
        "0"
    } else if d == 1 {
        "1"
    } else if d == 2 {
        "2"
    } else if d == 3 {
        "3"
    } else if d == 4 {
        "4"
    } else if d == 5 {
        "5"
    } else if d == 6 {
        "6"
    } else if d == 7 {
        "7"
    } else if d == 8 {
        "8"
    } else {
        "9"
    }
}

/// Renders `n` in decimal.
pub fn u64_to_dec(n: u64) -> (r: String)
    ensures
        r@ == dec_spec(n as nat),
    decreases n,
{
    if n < 10 {
        digit_str(n).to_owned()
    } else {
        let pre = u64_to_dec(n / 10);
        let r = pre.concat(digit_str(n % 10));
        proof {
            assert(r@ =~= dec_spec(n as nat));
        }
        r
    }
}

/// Characters that may not appear in a filesystem path segment.
pub open spec fn reserved_char(c: char) -> bool {
    c == '/' || c == '\\' || c == ':' || c == '*' || c == '?' || c == '"' || c == '<' || c == '>'
        || c == '|' || crate::text::is_ws(c)
}

/// `s` with every reserved character replaced by `-`.
pub open spec fn sanitize_spec(s: Seq<char>) -> Seq<char> {
    s.map_values(|c: char| if reserved_char(c) { '-' } else { c })
}

/// Maps a branch name to a filesystem-safe segment: path separators and
/// reserved characters become `-`.
pub fn sanitize_worktree_name(branch: &String) -> (r: String)
    ensures
        r@ == sanitize_spec(branch@),
{
    let n = branch.as_str().unicode_len();
    let mut out = String::new();
    let mut i: usize = 0;
    while i < n
        invariant
            n == branch@.len(),
            i <= n,
            out@ =~= sanitize_spec(branch@.take(i as int)),
        decreases n - i,
    {
        let c = branch.as_str().get_char(i);
        let mapped: char = if c == '/' || c == '\\' || c == ':' || c == '*' || c == '?'
            || c == '"' || c == '<' || c == '>' || c == '|' || crate::text::ws_char(c) {
            '-'
        } else {
            c
        };
        push_char(&mut out, mapped);
        proof {
            assert(out@ =~= sanitize_spec(branch@.take(i + 1 as int)));
        }
        i += 1;
    }
    proof {
        assert(branch@.take(n as int) =~= branch@);
        assert(out@ =~= sanitize_spec(branch@));
    }
    out
}

/// Joins a directory and a file name with `/`.
pub open spec fn join_spec(dir: Seq<char>, name: Seq<char>) -> Seq<char> {
    dir + "/"@ + name
}

/// Joins a directory and a file name with `/`.
pub fn join_path(dir: &String, name: &String) -> (r: String)
    ensures
        r@ == join_spec(dir@, name@),
{
    dir.clone().concat("/").concat(name.as_str())
}

/// The candidate produced by appending the numeric suffix `k` to `base`.
pub open spec fn cand_spec(base: Seq<char>, k: nat) -> Seq<char> {
    base + "-"@ + dec_spec(k)
}

/// Builds the candidate `base-k`.
pub fn make_cand(base: &String, k: u64) -> (r: String)
    ensures
        r@ == cand_spec(base@, k as nat),
{
    base.clone().concat("-").concat(u64_to_dec(k).as_str())
}

/// Appending to the same prefix is injective in the suffix.
pub proof fn lemma_append_cancel_left(a: Seq<char>, b: Seq<char>, c: Seq<char>)
    requires
        a + b == a + c,
    ensures
        b == c,
{
    assert((a + b).len() == a.len() + b.len());
    assert((a + c).len() == a.len() + c.len());
    assert(b.len() == c.len());
    assert forall|i: int| 0 <= i < b.len() implies b[i] == c[i] by {
        assert((a + b)[a.len() + i] == b[i]);
        assert((a + c)[a.len() + i] == c[i]);
    }
    assert(b =~= c);
}

/// Distinct suffix numbers give distinct candidates over one base.
pub proof fn lemma_cand_injective(base: Seq<char>, k1: nat, k2: nat)
    requires
        cand_spec(base, k1) == cand_spec(base, k2),
    ensures
        k1 == k2,
{
    lemma_append_cancel_left(base + "-"@, dec_spec(k1), dec_spec(k2));
    assert((base + "-"@) + dec_spec(k1) =~= base + "-"@ + dec_spec(k1));
    assert((base + "-"@) + dec_spec(k2) =~= base + "-"@ + dec_spec(k2));
    lemma_dec_injective(k1, k2);
}

/// Whether `s` is one of the names in `names`.
pub fn name_in_list(names: &Vec<String>, s: &String) -> (r: bool)
    ensures
        r == names.deep_view().contains(s@),
{
    let mut i: usize = 0;
    while i < names.len()
        invariant
            i <= names.len(),
            forall|j: int| 0 <= j < i ==> names.deep_view()[j] != s@,
        decreases names.len() - i,
    {
        if names[i].eq(s) {
            proof {
                assert(names.deep_view()[i as int] == s@);
            }
            return true;
        }
        i += 1;
    }
    proof {
        assert(!names.deep_view().contains(s@)) by {
            if names.deep_view().contains(s@) {
                let j = choose|j: int| 0 <= j < names.deep_view().len() && names.deep_view()[j] == s@;
                assert(names.deep_view()[j] == s@);
            }
        }
    }
    false
}

/// What `pick_unique_name` promises: the result collides with nothing in
/// `taken`; it is `base` itself whenever `base` is free, and otherwise the
/// first numerically suffixed candidate that is free.
pub open spec fn fresh_pick(taken: Seq<Seq<char>>, base: Seq<char>, r: Seq<char>) -> bool {
    &&& !taken.contains(r)
    &&& (!taken.contains(base) ==> r == base)
    &&& (taken.contains(base) ==> exists|k: nat|
        2 <= k && r == #[trigger] cand_spec(base, k) && (forall|k2: nat|
            2 <= k2 < k ==> taken.contains(#[trigger] cand_spec(base, k2))))
}

/// Picks `base`, or the first `base-k` (`k` counting from 2), that is not
/// in `taken`.  A free candidate always exists among the first
/// `taken.len() + 1` suffixes, by counting.
pub fn pick_unique_name(taken: &Vec<String>, base: &String) -> (r: String)
    requires
        taken@.len() + 3 <= u64::MAX,
    ensures
        fresh_pick(taken.deep_view(), base@, r@),
{
    if !name_in_list(taken, base) {
        return base.clone();
    }
    let m: u64 = taken.len() as u64;
    let mut k: u64 = 2;
    while k < m + 3
        invariant
            m == taken@.len(),
            m + 3 <= u64::MAX,
            2 <= k <= m + 3,
            taken.deep_view().contains(base@),
            forall|k2: nat| 2 <= k2 < k ==> taken.deep_view().contains(#[trigger] cand_spec(base@, k2)),
        decreases m + 3 - k,
    {
        let c = make_cand(base, k);
        if !name_in_list(taken, &c) {
            proof {
                let ghost kk = k as nat;
                assert(2 <= kk && c@ == cand_spec(base@, kk) && (forall|k2: nat|
                    2 <= k2 < kk ==> taken.deep_view().contains(cand_spec(base@, k2))));
                assert(fresh_pick(taken.deep_view(), base@, c@));
            }
            return c;
        }
        k += 1;
    }
    proof {
        lemma_unique_name_exists(taken.deep_view(), base@);
        let kf = choose|kf: nat| 2 <= kf < taken.deep_view().len() + 3 && !taken.deep_view()
            .contains(cand_spec(base@, kf));
        assert(taken.deep_view().contains(cand_spec(base@, kf)));
        assert(false);
    }
    base.clone()
}

/// `s` with every trailing `/` removed.
pub open spec fn strip_slashes(s: Seq<char>) -> Seq<char>
    decreases s.len(),
{
    if s.len() > 0 && s.last() == '/' {
        strip_slashes(s.drop_last())
    } else {
        s
    }
}

/// The component of `s` after its last `/` (empty if `s` ends in `/` or is
/// empty).
pub open spec fn tail_component(s: Seq<char>) -> Seq<char>
    decreases s.len(),
{
    if s.len() == 0 {
        Seq::empty()
    } else if s.last() == '/' {
        Seq::empty()
    } else {
        tail_component(s.drop_last()).push(s.last())
    }
}

/// The display name derived from a workspace path: its last component, or
/// `Workspace` when the path has none.
pub open spec fn basename_spec(p: Seq<char>) -> Seq<char> {
    let c = tail_component(strip_slashes(p));
    if c.len() == 0 {
        "Workspace"@
    } else {
        c
    }
}

/// When nothing at or after `k` is a slash and `k` sits just after a slash
/// (or at the start), the tail component is exactly the suffix from `k`.
proof fn lemma_tail_component(t: Seq<char>, k: int)
    requires
        0 <= k <= t.len(),
        forall|j: int| k <= j < t.len() ==> t[j] != '/',
        k > 0 ==> t[k - 1] == '/',
    ensures
        tail_component(t) == t.subrange(k, t.len() as int),
    decreases t.len(),
{
    if t.len() == k {
        if k == 0 {
            assert(tail_component(t) =~= t.subrange(0, 0));
        } else {
            assert(t.last() == '/');
            assert(tail_component(t) =~= t.subrange(k, t.len() as int));
        }
    } else {
        assert(t.last() != '/');
        lemma_tail_component(t.drop_last(), k);
        assert(tail_component(t) =~= t.subrange(k, t.len() as int)) by {
            assert(t.drop_last().subrange(k, t.drop_last().len() as int) =~= t.subrange(
                k,
                t.len() - 1,
            ));
            assert(tail_component(t) == t.subrange(k, t.len() - 1).push(t.last()));
        }
    }
}

/// Extracts the display name from a workspace path.
pub fn basename_of(path: &String) -> (r: String)
    ensures
        r@ == basename_spec(path@),
{
    let n = path.as_str().unicode_len();
    let mut end: usize = n;
    proof {
        assert(path@.take(n as int) =~= path@);
    }
    while end > 0 && path.as_str().get_char(end - 1) == '/'
        invariant
            end <= n,
            n == path@.len(),
            strip_slashes(path@) == strip_slashes(path@.take(end as int)),
        decreases end,
    {
        proof {
            assert(path@.take(end as int).drop_last() =~= path@.take(end - 1));
        }
        end -= 1;
    }
    proof {
        if end == 0 {
            assert(path@.take(0) =~= Seq::<char>::empty());
        }
        assert(strip_slashes(path@) == path@.take(end as int));
    }
    let mut start: usize = end;
    while start > 0 && path.as_str().get_char(start - 1) != '/'
        invariant
            start <= end <= n,
            n == path@.len(),
            forall|j: int| start <= j < end ==> path@[j] != '/',
        decreases start,
    {
        start -= 1;
    }
    proof {
        lemma_tail_component(path@.take(end as int), start as int);
        assert(path@.take(end as int).subrange(start as int, end as int) =~= path@.subrange(
            start as int,
            end as int,
        ));
    }
    if start == end {
        let r = String::from_str("Workspace");
        proof {
            assert(tail_component(strip_slashes(path@)) =~= Seq::<char>::empty());
        }
        return r;
    }
    let comp = path.as_str().substring_char(start, end).to_owned();
    comp
}

/// Whether `x` counts as taken for branch allocation: it exists and is not
/// the excluded name.
pub open spec fn branch_taken(
    existing: Seq<Seq<char>>,
    excluded: Option<Seq<char>>,
    x: Seq<char>,
) -> bool {
    existing.contains(x) && Option::Some(x) != excluded
}

/// Keeps the names other than `excluded`.
fn filter_excluding(names: &Vec<String>, excluded: &String) -> (r: Vec<String>)
    ensures
        r@.len() <= names@.len(),
        forall|x: Seq<char>| r.deep_view().contains(x) <==> (names.deep_view().contains(x) && x
            != excluded@),
{
    let mut out: Vec<String> = Vec::new();
    let mut i: usize = 0;
    while i < names.len()
        invariant
            i <= names.len(),
            out@.len() <= i,
            forall|x: Seq<char>| out.deep_view().contains(x) <==> (names.deep_view().take(
                i as int,
            ).contains(x) && x != excluded@),
        decreases names.len() - i,
    {
        let ghost pre = out.deep_view();
        if !names[i].eq(excluded) {
            out.push(names[i].clone());
            proof {
                assert(out.deep_view() =~= pre.push(names@[i as int]@));
            }
        }
        proof {
            assert forall|x: Seq<char>| out.deep_view().contains(x) implies (names.deep_view()
                .take(i + 1 as int).contains(x) && x != excluded@) by {
                let j = choose|j: int| 0 <= j < out.deep_view().len() && out.deep_view()[j] == x;
                if j < pre.len() {
                    assert(pre.contains(x));
                    let j2 = choose|j2: int| 0 <= j2 < i && names.deep_view().take(i as int)[j2]
                        == x;
                    assert(names.deep_view().take(i + 1 as int)[j2] == x);
                } else {
                    assert(x == names.deep_view()[i as int]);
                    assert(names.deep_view().take(i + 1 as int)[i as int] == x);
                }
            }
            let ghost dvt = names.deep_view().take(i + 1 as int);
            assert forall|x: Seq<char>| (names.deep_view().take(i + 1 as int).contains(x) && x
                != excluded@) implies out.deep_view().contains(x) by {
                let j = choose|j: int| 0 <= j < dvt.len() && dvt[j] == x;
                if j < i {
                    assert(names.deep_view().take(i as int)[j] == x);
                    assert(pre.contains(x));
                    let j2 = choose|j2: int| 0 <= j2 < pre.len() && pre[j2] == x;
                    assert(out.deep_view()[j2] == x);
                } else {
                    assert(x == names.deep_view()[i as int]);
                    assert(out.deep_view().last() == x);
                }
            }
        }
        i += 1;
    }
    proof {
        assert(names.deep_view().take(names@.len() as int) =~= names.deep_view());
    }
    out
}

/// Allocates a branch name: the requested name if it does not collide with
/// an existing branch (other than `excluded`), else the first numerically
/// suffixed variant that is free.  The flag reports whether a suffix was
/// appended.
pub fn unique_branch_name(
    existing: &Vec<String>,
    requested: &String,
    excluded: Option<&String>,
) -> (r: (String, bool))
    requires
        existing@.len() + 3 <= u64::MAX,
    ensures
        !branch_taken(existing.deep_view(), opt_name_view(excluded), r.0@),
        !branch_taken(existing.deep_view(), opt_name_view(excluded), requested@) ==> r.0@
            == requested@,
        branch_taken(existing.deep_view(), opt_name_view(excluded), requested@) ==> exists|k: nat|
            2 <= k && r.0@ == #[trigger] cand_spec(requested@, k) && (forall|k2: nat|
                2 <= k2 < k ==> branch_taken(
                    existing.deep_view(),
                    opt_name_view(excluded),
                    #[trigger] cand_spec(requested@, k2),
                )),
        r.1 == (r.0@ != requested@),
{
    let effective: Vec<String> = match excluded {
        Option::Some(x) => filter_excluding(existing, x),
        Option::None => {
            let c = crate::types::clone_args(existing);
            proof {
                assert forall|x: Seq<char>| c.deep_view().contains(x) implies existing.deep_view()
                    .contains(x) by {
                    let j = choose|j: int| 0 <= j < c.deep_view().len() && c.deep_view()[j] == x;
                    assert(existing.deep_view()[j] == x);
                }
                assert forall|x: Seq<char>| existing.deep_view().contains(x) implies c.deep_view()
                    .contains(x) by {
                    let j = choose|j: int|
                        0 <= j < existing.deep_view().len() && existing.deep_view()[j] == x;
                    assert(c.deep_view()[j] == x);
                }
            }
            c
        },
    };
    proof {
        assert forall|x: Seq<char>| effective.deep_view().contains(x) <==> branch_taken(
            existing.deep_view(),
            opt_name_view(excluded),
            x,
        ) by {}
    }
    let name = pick_unique_name(&effective, requested);
    let suffixed = !name.eq(requested);
    (name, suffixed)
}

/// Keeps the names whose joined path is not the given current path, so a
/// rename may keep its own directory.
pub fn filter_excluding_path(
    names: &Vec<String>,
    root: &String,
    current_path: &String,
) -> (r: Vec<String>)
    ensures
        r@.len() <= names@.len(),
        forall|x: Seq<char>| r.deep_view().contains(x) <==> (names.deep_view().contains(x)
            && join_spec(root@, x) != current_path@),
{
    let mut out: Vec<String> = Vec::new();
    let mut i: usize = 0;
    while i < names.len()
        invariant
            i <= names.len(),
            out@.len() <= i,
            forall|x: Seq<char>| out.deep_view().contains(x) <==> (names.deep_view().take(
                i as int,
            ).contains(x) && join_spec(root@, x) != current_path@),
        decreases names.len() - i,
    {
        let ghost pre = out.deep_view();
        let joined = join_path(root, &names[i]);
        if !joined.eq(current_path) {
            out.push(names[i].clone());
            proof {
                assert(out.deep_view() =~= pre.push(names@[i as int]@));
            }
        }
        proof {
            assert forall|x: Seq<char>| out.deep_view().contains(x) implies (names.deep_view()
                .take(i + 1 as int).contains(x) && join_spec(root@, x) != current_path@) by {
                let j = choose|j: int| 0 <= j < out.deep_view().len() && out.deep_view()[j] == x;
                if j < pre.len() {
                    assert(pre.contains(x));
                    let j2 = choose|j2: int| 0 <= j2 < i && names.deep_view().take(i as int)[j2]
                        == x;
                    assert(names.deep_view().take(i + 1 as int)[j2] == x);
                } else {
                    assert(x == names.deep_view()[i as int]);
                    assert(names.deep_view().take(i + 1 as int)[i as int] == x);
                }
            }
            let ghost dvt = names.deep_view().take(i + 1 as int);
            assert forall|x: Seq<char>| (names.deep_view().take(i + 1 as int).contains(x)
                && join_spec(root@, x) != current_path@) implies out.deep_view().contains(x) by {
                let j = choose|j: int| 0 <= j < dvt.len() && dvt[j] == x;
                if j < i {
                    assert(names.deep_view().take(i as int)[j] == x);
                    assert(pre.contains(x));
                    let j2 = choose|j2: int| 0 <= j2 < pre.len() && pre[j2] == x;
                    assert(out.deep_view()[j2] == x);
                } else {
                    assert(x == names.deep_view()[i as int]);
                    assert(out.deep_view().last() == x);
                }
            }
        }
        i += 1;
    }
    proof {
        assert(names.deep_view().take(names@.len() as int) =~= names.deep_view());
    }
    out
}

/// The model of an optional borrowed name.
pub open spec fn opt_name_view(o: Option<&String>) -> Option<Seq<char>> {
    match o {
        Option::Some(s) => Option::Some(s@),
        Option::None => Option::None,
    }
}

/// Counting argument: the `taken.len() + 1` distinct candidates
/// `base-2 .. base-(taken.len()+2)` cannot all lie in `taken`, so one of
/// them is free.
pub proof fn lemma_unique_name_exists(taken: Seq<Seq<char>>, base: Seq<char>)
    ensures
        exists|k: nat| 2 <= k < taken.len() + 3 && !taken.contains(cand_spec(base, k)),
{
    broadcast use vstd::set::group_set_axioms;

    if forall|k2: nat| 2 <= k2 < taken.len() + 3 ==> taken.contains(cand_spec(base, k2)) {
        let m = taken.len() as int;
        let range = vstd::set_lib::set_int_range(2, m + 3);
        vstd::set_lib::lemma_int_range(2, m + 3);
        let f = |k: int| cand_spec(base, k as nat);
        assert(vstd::relations::injective_on(f, range)) by {
            assert forall|x: int, y: int|
                #![trigger f(x), f(y)]
                range.contains(x) && range.contains(y) && f(x) == f(y) implies x == y by {
                lemma_cand_injective(base, x as nat, y as nat);
            }
        }
        let cands = range.map(f);
        vstd::set_lib::lemma_map_size(range, cands, f);
        let taken_set = taken.to_set();
        taken.lemma_cardinality_of_set();
        assert(cands.subset_of(taken_set)) by {
            assert forall|c: Seq<char>| cands.contains(c) implies taken_set.contains(c) by {
                let k = choose|k: int| range.contains(k) && f(k) == c;
                assert(2 <= k && k < taken.len() + 3);
                assert(taken.contains(cand_spec(base, k as nat)));
            }
        }
        vstd::set_lib::lemma_len_subset(cands, taken_set);
        assert(m + 1 <= m);
    }
}

} // verus!
