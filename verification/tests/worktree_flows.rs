use workspace_orchestrator::errors::{Invalid, Missing, WrongKind, WsError};
use workspace_orchestrator::orchestrate::Core;
use workspace_orchestrator::remote::remote_failure;
use workspace_orchestrator::types::{AppSettings, SessionHandle, WorkspaceKind};

fn app_settings() -> AppSettings {
    AppSettings {
        codex_bin: Some("/usr/bin/codex".to_string()),
        codex_args: None,
        home_root: "/homes".to_string(),
    }
}

fn new_core() -> Core {
    Core::new(app_settings())
}

fn add_main(core: &mut Core, path: &str, token: u64) -> String {
    let (entry, _plan) = core.plan_add_workspace(&path.to_string(), None, true).unwrap();
    let (res, _) = core.commit_add(entry, Ok(SessionHandle { token }), Ok(()));
    res.unwrap().id
}

fn add_wt(core: &mut Core, parent: &str, branch: &str, token: u64) -> String {
    let plan = core
        .plan_add_worktree(
            &parent.to_string(),
            &branch.to_string(),
            &"/wt".to_string(),
            &Vec::new(),
            false,
        )
        .unwrap();
    let (res, _) = core.commit_add(plan.entry, Ok(SessionHandle { token }), Ok(()));
    res.unwrap().id
}

#[test]
fn remove_worktree_plan_checks_the_kind() {
    let mut core = new_core();
    let a = add_main(&mut core, "/tmp/a", 1);
    let r = core.plan_remove_worktree(&a);
    match r {
        Err(e @ WsError::InvalidOperation(WrongKind::NotAWorktree)) => {
            assert_eq!(e.message(), "Not a worktree workspace.");
        }
        other => panic!("expected kind error, got {:?}", other.map(|p| p.entry.id)),
    }
    let r = core.plan_remove_worktree(&"ghost".to_string());
    assert!(matches!(r, Err(WsError::NotFound(Missing::Workspace))));
    let w = add_wt(&mut core, &a, "topic", 2);
    let plan = core.plan_remove_worktree(&w).unwrap();
    assert_eq!(plan.remove_cmds.len(), 1);
    assert_eq!(plan.remove_cmds[0], vec!["worktree", "remove", "--force", "/wt/topic"]);
    let (res, kills) = core.commit_remove(&w, Ok(()));
    res.unwrap();
    assert_eq!(kills, vec![SessionHandle { token: 2 }]);
    assert_eq!(core.registry.entries.len(), 1);
    assert_eq!(core.store.len(), 1);
}

#[test]
fn apply_changes_plan_checks_kind_and_carries_roots() {
    let mut core = new_core();
    let a = add_main(&mut core, "/tmp/parent", 1);
    let r = core.plan_apply_changes(&a);
    assert!(matches!(r, Err(WsError::InvalidOperation(WrongKind::NotAWorktree))));
    let r = core.plan_apply_changes(&"nope".to_string());
    assert!(matches!(r, Err(WsError::NotFound(Missing::Workspace))));
    let w = add_wt(&mut core, &a, "change", 2);
    let plan = core.plan_apply_changes(&w).unwrap();
    assert_eq!(plan.worktree_path, "/wt/change");
    assert_eq!(plan.parent_path, "/tmp/parent");
    assert_eq!(plan.status_cmd, vec!["status", "--porcelain"]);
    assert_eq!(plan.staged_cmd, vec!["diff", "--binary", "--no-color", "--cached"]);
    assert_eq!(plan.unstaged_cmd, vec!["diff", "--binary", "--no-color"]);
    assert_eq!(
        plan.untracked_cmd,
        vec!["ls-files", "--others", "--exclude-standard", "-z"]
    );
    assert_eq!(plan.apply_cmd, vec!["apply", "--3way", "--whitespace=nowarn", "-"]);
}

#[test]
fn chosen_id_collision_is_rejected() {
    let mut core = new_core();
    let a = add_main(&mut core, "/tmp/a", 1);
    let r = core.plan_add_workspace_with_id(&"/tmp/b".to_string(), None, true, a.clone());
    match r {
        Err(e @ WsError::Validation(Invalid::IdTaken)) => {
            assert_eq!(e.message(), "workspace id already in use");
        }
        other => panic!("expected id collision, got {:?}", other.map(|p| p.0.id)),
    }
}

#[test]
fn worktree_entry_carries_branch_and_parent() {
    let mut core = new_core();
    let a = add_main(&mut core, "/tmp/a", 1);
    let plan = core
        .plan_add_worktree(
            &a,
            &"  spaced branch  ".to_string(),
            &"/wt".to_string(),
            &Vec::new(),
            false,
        )
        .unwrap();
    assert_eq!(plan.entry.name, "spaced branch");
    assert_eq!(plan.dir_name, "spaced-branch");
    assert_eq!(plan.entry.path, "/wt/spaced-branch");
    match &plan.entry.kind {
        WorkspaceKind::Worktree { parent_id, branch } => {
            assert_eq!(parent_id, &a);
            assert_eq!(branch, "spaced branch");
        }
        WorkspaceKind::Main => panic!("expected a worktree entry"),
    }
    // The spawn plan names the entry's own binary resolution.
    assert_eq!(plan.spawn.program, "/usr/bin/codex");
    assert_eq!(plan.spawn.home, "/homes/".to_string() + plan.entry.id.as_str());
}

#[test]
fn connect_spawn_failure_changes_nothing() {
    let mut core = new_core();
    let a = add_main(&mut core, "/tmp/a", 1);
    let (res, evicted) = core.commit_connect(&a, Err("exec format error".to_string()));
    match res {
        Err(WsError::Spawn(m)) => assert_eq!(m, "exec format error"),
        Ok(()) => panic!("expected spawn failure"),
        Err(other) => panic!("wrong error: {:?}", other),
    }
    assert!(evicted.is_none());
    let listed = core.list_workspaces();
    assert!(listed[0].connected);
}

#[test]
fn loaded_lists_are_validated_before_use() {
    let mut source = new_core();
    let a = add_main(&mut source, "/tmp/a", 1);
    let _w = add_wt(&mut source, &a, "topic", 2);
    let entries = std::mem::take(&mut source.registry.entries);

    let good = Core::from_persisted(entries, app_settings()).expect("valid list loads");
    assert_eq!(good.registry.entries.len(), 2);
    assert_eq!(good.store.len(), 2);
    assert!(good.list_workspaces().iter().all(|i| !i.connected));

    // A repeated id is rejected.
    let mut dup = new_core();
    let d = add_main(&mut dup, "/tmp/a", 1);
    let mut entries = std::mem::take(&mut dup.registry.entries);
    let copy = workspace_orchestrator::types::WorkspaceEntry {
        id: d.clone(),
        name: "other".to_string(),
        path: "/tmp/other".to_string(),
        codex_bin: None,
        kind: WorkspaceKind::Main,
        settings: workspace_orchestrator::types::WorkspaceSettings {
            codex_home: None,
            codex_args: None,
            group_id: None,
        },
    };
    entries.push(copy);
    let r = Core::from_persisted(entries, app_settings());
    match r {
        Err(e @ WsError::Validation(Invalid::MalformedList)) => {
            assert_eq!(e.message(), "Stored workspace list is malformed.");
        }
        other => panic!("expected malformed-list error, got {:?}", other.map(|_| ())),
    }

    // A worktree with a dangling parent is rejected.
    let orphan = vec![workspace_orchestrator::types::WorkspaceEntry {
        id: "w1".to_string(),
        name: "w".to_string(),
        path: "/tmp/w".to_string(),
        codex_bin: None,
        kind: WorkspaceKind::Worktree {
            parent_id: "gone".to_string(),
            branch: "b".to_string(),
        },
        settings: workspace_orchestrator::types::WorkspaceSettings {
            codex_home: None,
            codex_args: None,
            group_id: None,
        },
    }];
    let r = Core::from_persisted(orphan, app_settings());
    assert!(matches!(r, Err(WsError::Validation(Invalid::MalformedList))));
}

#[test]
fn rename_fails_unchanged_when_the_suffixed_pick_is_the_current_branch() {
    let mut core = new_core();
    let a = add_main(&mut core, "/tmp/a", 1);
    // The worktree currently sits on `dev-2`; renaming to `dev` collides,
    // and the allocator's pick `dev-2` is the current branch again.
    let plan = core
        .plan_add_worktree(&a, &"dev-2".to_string(), &"/wt".to_string(), &Vec::new(), false)
        .unwrap();
    let (res, _) = core.commit_add(plan.entry, Ok(SessionHandle { token: 2 }), Ok(()));
    let w = res.unwrap().id;
    let branches = vec!["dev".to_string(), "main".to_string()];
    let r = core.plan_rename_worktree(
        &w,
        &"dev".to_string(),
        &branches,
        &"/wt".to_string(),
        &vec!["dev-2".to_string()],
    );
    assert!(matches!(r, Err(WsError::Validation(Invalid::BranchUnchanged))));
    // With `dev-2` also taken the pick moves on to `dev-3` and the rename
    // goes through.
    let branches = vec!["dev".to_string(), "dev-2".to_string()];
    let plan = core
        .plan_rename_worktree(
            &w,
            &"dev".to_string(),
            &branches,
            &"/wt".to_string(),
            &vec!["dev-2".to_string()],
        )
        .unwrap();
    assert_eq!(plan.final_branch, "dev-3");
}

#[test]
fn blank_branch_beats_a_missing_parent() {
    let core = new_core();
    let r = core.plan_add_worktree(
        &"ghost".to_string(),
        &"  ".to_string(),
        &"/wt".to_string(),
        &Vec::new(),
        false,
    );
    assert!(matches!(r, Err(WsError::Validation(Invalid::EmptyBranch))));
}

#[test]
fn remote_failure_passes_message_through() {
    let e = remote_failure("peer unreachable".to_string());
    match e {
        WsError::Remote(m) => assert_eq!(m, "peer unreachable"),
        other => panic!("wrong variant: {:?}", other),
    }
}
