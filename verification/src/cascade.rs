//! Settings cascade engine.
//!
//! Computes the effective home directory and argument list used to launch a
//! workspace's agent process, from the entry's own settings, an optional
//! parent override (worktrees only), and the global application defaults;
//! and decides when a settings change requires a session respawn.

use vstd::prelude::*;

use crate::types::{
    AppSettings, AppSettingsModel, EntryModel, KindModel, WorkspaceEntry, WorkspaceSettings,
};

verus! {

/// The model of an optional borrowed parent entry.
pub open spec fn opt_entry_model(p: Option<&WorkspaceEntry>) -> Option<EntryModel> {
    match p {
        Option::Some(e) => Option::Some(e@),
        Option::None => Option::None,
    }
}

/// The argument list an optional override contributes: its value, or
/// nothing.
pub open spec fn args_or_empty(o: Option<Seq<Seq<char>>>) -> Seq<Seq<char>> {
    match o {
        Option::Some(s) => s,
        Option::None => Seq::empty(),
    }
}

/// The effective home directory for an entry: its own override if present;
/// else, for a worktree, the parent's override if present; else the global
/// default layout keyed by the entry id.
pub open spec fn effective_home(
    entry: EntryModel,
    parent: Option<EntryModel>,
    home_root: Seq<char>,
) -> Seq<char> {
    if entry.settings.codex_home is Some {
        entry.settings.codex_home->0
    } else if entry.kind is Worktree && parent is Some && parent->0.settings.codex_home is Some {
        parent->0.settings.codex_home->0
    } else {
        home_root + "/"@ + entry.id
    }
}

/// The effective argument list for an entry: global defaults first, then
/// the parent's override (worktrees only), then the entry's own override.
/// Later entries may repeat earlier ones; duplicates are preserved as
/// given.
pub open spec fn effective_args(
    entry: EntryModel,
    parent: Option<EntryModel>,
    app: AppSettingsModel,
) -> Seq<Seq<char>> {
    args_or_empty(app.codex_args) + (if entry.kind is Worktree {
        match parent {
            Option::Some(p) => args_or_empty(p.settings.codex_args),
            Option::None => Seq::empty(),
        }
    } else {
        Seq::empty()
    }) + args_or_empty(entry.settings.codex_args)
}

/// Computes the effective home directory for `entry`.
pub fn resolve_codex_home(
    entry: &WorkspaceEntry,
    parent: Option<&WorkspaceEntry>,
    home_root: &String,
) -> (r: String)
    ensures
        r@ == effective_home(entry@, opt_entry_model(parent), home_root@),
{
    if let Option::Some(h) = &entry.settings.codex_home {
        return h.clone();
    }
    if entry.kind.is_worktree() {
        if let Option::Some(p) = parent {
            if let Option::Some(h) = &p.settings.codex_home {
                return h.clone();
            }
        }
    }
    home_root.clone().concat("/").concat(entry.id.as_str())
}

/// Appends every element of `src` to `dst`.
pub fn append_all(dst: &mut Vec<String>, src: &Vec<String>)
    ensures
        final(dst).deep_view() == old(dst).deep_view() + src.deep_view(),
{
    let mut i: usize = 0;
    while i < src.len()
        invariant
            i <= src.len(),
            dst@ =~= old(dst)@ + src@.take(i as int),
        decreases src.len() - i,
    {
        dst.push(src[i].clone());
        proof {
            assert(dst@ =~= old(dst)@ + src@.take(i + 1 as int));
        }
        i += 1;
    }
    proof {
        assert(dst@ =~= old(dst)@ + src@);
        assert(dst.deep_view() =~= old(dst).deep_view() + src.deep_view());
    }
}

/// Computes the effective argument list for `entry`.
pub fn resolve_codex_args(
    entry: &WorkspaceEntry,
    parent: Option<&WorkspaceEntry>,
    app: &AppSettings,
) -> (r: Vec<String>)
    ensures
        r.deep_view() == effective_args(entry@, opt_entry_model(parent), app@),
{
    let mut out: Vec<String> = Vec::new();
    if let Option::Some(base) = &app.codex_args {
        append_all(&mut out, base);
    }
    if entry.kind.is_worktree() {
        if let Option::Some(p) = parent {
            if let Option::Some(extra) = &p.settings.codex_args {
                append_all(&mut out, extra);
            }
        }
    }
    if let Option::Some(own) = &entry.settings.codex_args {
        append_all(&mut out, own);
    }
    proof {
        assert(out.deep_view() =~= effective_args(entry@, opt_entry_model(parent), app@));
    }
    out
}

/// Whether two optional strings denote the same value.
pub fn opt_string_eq(a: &Option<String>, b: &Option<String>) -> (r: bool)
    ensures
        r == (crate::types::opt_view(*a) == crate::types::opt_view(*b)),
{
    match (a, b) {
        (Option::None, Option::None) => true,
        (Option::Some(x), Option::Some(y)) => x.eq(y),
        _ => false,
    }
}

/// Whether two string lists hold the same values in the same order.
pub fn args_eq(a: &Vec<String>, b: &Vec<String>) -> (r: bool)
    ensures
        r == (a.deep_view() == b.deep_view()),
{
    if a.len() != b.len() {
        proof {
            assert(a.deep_view().len() != b.deep_view().len());
        }
        return false;
    }
    let mut i: usize = 0;
    while i < a.len()
        invariant
            i <= a.len(),
            a.len() == b.len(),
            forall|j: int| 0 <= j < i ==> a.deep_view()[j] == b.deep_view()[j],
        decreases a.len() - i,
    {
        let same = a[i].eq(&b[i]);
        if !same {
            proof {
                assert(a.deep_view()[i as int] != b.deep_view()[i as int]);
            }
            return false;
        }
        i += 1;
    }
    proof {
        assert(a.deep_view() =~= b.deep_view());
    }
    true
}

/// Whether two optional string lists denote the same value.
pub fn opt_args_eq(a: &Option<Vec<String>>, b: &Option<Vec<String>>) -> (r: bool)
    ensures
        r == (crate::types::opt_args_view(*a) == crate::types::opt_args_view(*b)),
{
    match (a, b) {
        (Option::None, Option::None) => true,
        (Option::Some(x), Option::Some(y)) => args_eq(x, y),
        _ => false,
    }
}

/// Whether a settings update changes either field that feeds the launch
/// configuration (home override or argument override), compared by value.
pub open spec fn raw_launch_settings_changed(
    prev: crate::types::SettingsModel,
    next: crate::types::SettingsModel,
) -> bool {
    prev.codex_home != next.codex_home || prev.codex_args != next.codex_args
}

/// Decides whether the entry's own session must be respawned after its
/// settings change from `prev` to `next`.
pub fn launch_settings_changed(prev: &WorkspaceSettings, next: &WorkspaceSettings) -> (r: bool)
    ensures
        r == raw_launch_settings_changed(prev@, next@),
{
    !opt_string_eq(&prev.codex_home, &next.codex_home) || !opt_args_eq(
        &prev.codex_args,
        &next.codex_args,
    )
}

/// Whether a child worktree's effective launch configuration differs under
/// the old and the new version of its parent entry.
pub open spec fn child_effective_changed_spec(
    child: EntryModel,
    prev_parent: EntryModel,
    next_parent: EntryModel,
    app: AppSettingsModel,
) -> bool {
    effective_home(child, Option::Some(prev_parent), app.home_root) != effective_home(
        child,
        Option::Some(next_parent),
        app.home_root,
    ) || effective_args(child, Option::Some(prev_parent), app) != effective_args(
        child,
        Option::Some(next_parent),
        app,
    )
}

/// Decides whether a child worktree must be respawned after its parent's
/// settings changed: only when its effective (not raw) home or argument
/// list actually differs.
pub fn child_effective_changed(
    child: &WorkspaceEntry,
    prev_parent: &WorkspaceEntry,
    next_parent: &WorkspaceEntry,
    app: &AppSettings,
) -> (r: bool)
    ensures
        r == child_effective_changed_spec(child@, prev_parent@, next_parent@, app@),
{
    let prev_home = resolve_codex_home(child, Option::Some(prev_parent), &app.home_root);
    let next_home = resolve_codex_home(child, Option::Some(next_parent), &app.home_root);
    let prev_args = resolve_codex_args(child, Option::Some(prev_parent), app);
    let next_args = resolve_codex_args(child, Option::Some(next_parent), app);
    !prev_home.eq(&next_home) || !args_eq(&prev_args, &next_args)
}

} // verus!
