use workspace_orchestrator::errors::{Invalid, Missing, WrongKind, WsError};
use workspace_orchestrator::cascade::{resolve_codex_args, resolve_codex_home};
use workspace_orchestrator::orchestrate::Core;
use workspace_orchestrator::types::{
    AppSettings, SessionHandle, WorkspaceEntry, WorkspaceInfo, WorkspaceKind, WorkspaceSettings,
};

fn app_settings() -> AppSettings {
    AppSettings {
        codex_bin: None,
        codex_args: Some(vec!["--global".to_string()]),
        home_root: "/home/user/.codex-monitor".to_string(),
    }
}

fn new_core() -> Core {
    Core::new(app_settings())
}

fn add_main(core: &mut Core, path: &str, token: u64) -> WorkspaceInfo {
    let path = path.to_string();
    let (entry, _plan) = core
        .plan_add_workspace(&path, None, true)
        .expect("plan should succeed");
    let (res, kill) = core.commit_add(entry, Ok(SessionHandle { token }), Ok(()));
    assert!(kill.is_none());
    res.expect("commit should succeed")
}

fn add_worktree(core: &mut Core, parent_id: &str, branch: &str, existing: &[&str], token: u64) -> WorkspaceInfo {
    let parent_id = parent_id.to_string();
    let branch = branch.to_string();
    let root = "/data/worktrees".to_string();
    let existing: Vec<String> = existing.iter().map(|s| s.to_string()).collect();
    let plan = core
        .plan_add_worktree(&parent_id, &branch, &root, &existing, false)
        .expect("worktree plan should succeed");
    let (res, kill) = core.commit_add(plan.entry, Ok(SessionHandle { token }), Ok(()));
    assert!(kill.is_none());
    res.expect("worktree commit should succeed")
}

fn registry_ids(core: &Core) -> Vec<String> {
    core.registry.entries.iter().map(|e| e.id.clone()).collect()
}

fn store_ids(core: &Core) -> Vec<String> {
    core.store.iter().map(|e| e.id.clone()).collect()
}

#[test]
fn add_workspace_then_list_then_remove() {
    let mut core = new_core();
    let info = add_main(&mut core, "/tmp/proj", 1);
    assert!(matches!(info.kind, WorkspaceKind::Main));
    assert!(info.connected);
    assert!(info.settings.codex_home.is_none());
    assert!(info.settings.codex_args.is_none());
    assert!(info.settings.group_id.is_none());
    assert_eq!(info.name, "proj");

    let listed = core.list_workspaces();
    assert_eq!(listed.len(), 1);
    assert_eq!(listed[0].id, info.id);
    assert!(listed[0].connected);

    core.plan_remove_workspace(&info.id).expect("plan remove");
    let (res, _kills) = core.commit_remove(&info.id, Ok(()));
    res.expect("remove should succeed");
    assert!(core.list_workspaces().is_empty());
}

#[test]
fn registry_and_store_ids_stay_equal_across_operations() {
    let mut core = new_core();
    assert_eq!(registry_ids(&core), store_ids(&core));
    let a = add_main(&mut core, "/tmp/a", 1);
    assert_eq!(registry_ids(&core), store_ids(&core));
    let _b = add_main(&mut core, "/tmp/b", 2);
    assert_eq!(registry_ids(&core), store_ids(&core));
    let w = add_worktree(&mut core, &a.id, "feature", &[], 3);
    assert_eq!(registry_ids(&core), store_ids(&core));
    let (res, _) = core.commit_remove(&w.id, Ok(()));
    res.unwrap();
    assert_eq!(registry_ids(&core), store_ids(&core));
    let (res, _) = core.commit_remove(&a.id, Ok(()));
    res.unwrap();
    assert_eq!(registry_ids(&core), store_ids(&core));
}

#[test]
fn failed_persist_rolls_back_and_keeps_store_in_step() {
    let mut core = new_core();
    let a = add_main(&mut core, "/tmp/a", 1);
    let path = "/tmp/c".to_string();
    let (entry, _plan) = core.plan_add_workspace(&path, None, true).unwrap();
    let (res, kill) = core.commit_add(
        entry,
        Ok(SessionHandle { token: 9 }),
        Err("disk full".to_string()),
    );
    match res {
        Err(WsError::Filesystem(m)) => assert_eq!(m, "disk full"),
        other => panic!("expected filesystem error, got {:?}", other),
    }
    assert_eq!(kill, Some(SessionHandle { token: 9 }));
    assert_eq!(registry_ids(&core), store_ids(&core));
    assert_eq!(registry_ids(&core), vec![a.id.clone()]);
}

#[test]
fn add_worktree_on_worktree_fails_with_invalid_operation() {
    let mut core = new_core();
    let a = add_main(&mut core, "/tmp/a", 1);
    let w = add_worktree(&mut core, &a.id, "feature", &[], 2);
    let root = "/data/worktrees".to_string();
    for branch in ["x", "", "   ", "another/branch"] {
        let r = core.plan_add_worktree(&w.id, &branch.to_string(), &root, &Vec::new(), false);
        match r {
            Err(WsError::InvalidOperation(WrongKind::WorktreeOfWorktree)) => {},
            other => panic!("expected invalid operation, got {:?}", other.map(|p| p.entry.id)),
        }
    }
}

#[test]
fn add_worktree_empty_branch_fails_with_validation() {
    let mut core = new_core();
    let a = add_main(&mut core, "/tmp/a", 1);
    let root = "/data/worktrees".to_string();
    let r = core.plan_add_worktree(&a.id, &"   ".to_string(), &root, &Vec::new(), false);
    assert!(matches!(r, Err(WsError::Validation(Invalid::EmptyBranch))));
}

#[test]
fn add_worktree_missing_parent_fails_with_not_found() {
    let core = new_core();
    let root = "/data/worktrees".to_string();
    let r = core.plan_add_worktree(&"nope".to_string(), &"b".to_string(), &root, &Vec::new(), false);
    assert!(matches!(r, Err(WsError::NotFound(Missing::Parent))));
}

#[test]
fn remove_workspace_removes_all_child_worktrees() {
    let mut core = new_core();
    let a = add_main(&mut core, "/tmp/a", 1);
    let b = add_main(&mut core, "/tmp/b", 2);
    let _w1 = add_worktree(&mut core, &a.id, "one", &[], 3);
    let _w2 = add_worktree(&mut core, &a.id, "two", &["one"], 4);
    let plan = core.plan_remove_workspace(&a.id).unwrap();
    assert_eq!(plan.children.len(), 2);
    assert_eq!(plan.remove_cmds.len(), 2);
    assert_eq!(plan.prune_cmd, vec!["worktree", "prune", "--expire", "now"]);
    let (res, kills) = core.commit_remove(&a.id, Ok(()));
    res.unwrap();
    assert_eq!(kills.len(), 3);
    let ids = registry_ids(&core);
    assert_eq!(ids, vec![b.id.clone()]);
    for e in core.registry.entries.iter() {
        if let WorkspaceKind::Worktree { parent_id, .. } = &e.kind {
            assert_ne!(parent_id, &a.id);
        }
    }
}

#[test]
fn remove_workspace_on_worktree_is_rejected() {
    let mut core = new_core();
    let a = add_main(&mut core, "/tmp/a", 1);
    let w = add_worktree(&mut core, &a.id, "feature", &[], 2);
    let r = core.plan_remove_workspace(&w.id);
    match r {
        Err(e @ WsError::InvalidOperation(WrongKind::WorkspaceIsWorktree)) => {
            assert_eq!(e.message(), "Use remove_worktree for worktree agents.");
        },
        other => panic!("expected invalid operation, got {:?}", other.map(|p| p.entry.id)),
    }
}

#[test]
fn second_worktree_with_same_branch_gets_suffixed_path() {
    let mut core = new_core();
    let a = add_main(&mut core, "/tmp/a", 1);
    let w1 = add_worktree(&mut core, &a.id, "feature-x", &[], 2);
    assert_eq!(w1.path, "/data/worktrees/feature-x");
    let w2 = add_worktree(&mut core, &a.id, "feature-x", &["feature-x"], 3);
    assert_eq!(w2.path, "/data/worktrees/feature-x-2");
    assert_ne!(w1.path, w2.path);
}

#[test]
fn new_branch_uses_worktree_add_dash_b() {
    let mut core = new_core();
    let a = add_main(&mut core, "/tmp/a", 1);
    let root = "/data/worktrees".to_string();
    let plan = core
        .plan_add_worktree(&a.id, &"feature-x".to_string(), &root, &Vec::new(), false)
        .unwrap();
    assert_eq!(
        plan.add_cmd,
        vec!["worktree", "add", "-b", "feature-x", "/data/worktrees/feature-x"]
    );
    let plan2 = core
        .plan_add_worktree(&a.id, &"feature-x".to_string(), &root, &Vec::new(), true)
        .unwrap();
    assert_eq!(
        plan2.add_cmd,
        vec!["worktree", "add", "/data/worktrees/feature-x", "feature-x"]
    );
}

#[test]
fn rename_to_current_branch_fails_unchanged() {
    let mut core = new_core();
    let a = add_main(&mut core, "/tmp/a", 1);
    let w = add_worktree(&mut core, &a.id, "feature", &[], 2);
    let root = "/data/worktrees".to_string();
    let r = core.plan_rename_worktree(
        &w.id,
        &"  feature  ".to_string(),
        &vec!["feature".to_string()],
        &root,
        &vec!["feature".to_string()],
    );
    match r {
        Err(e @ WsError::Validation(Invalid::BranchUnchanged)) => {
            assert_eq!(e.message(), "Branch name is unchanged.");
        },
        other => panic!("expected unchanged error, got {:?}", other.map(|p| p.final_branch)),
    }
    assert_eq!(registry_ids(&core), store_ids(&core));
}

#[test]
fn rename_allocates_fresh_branch_and_path() {
    let mut core = new_core();
    let a = add_main(&mut core, "/tmp/a", 1);
    let w = add_worktree(&mut core, &a.id, "old-name", &[], 2);
    let root = "/data/worktrees".to_string();
    let plan = core
        .plan_rename_worktree(
            &w.id,
            &"fresh".to_string(),
            &vec!["old-name".to_string(), "fresh".to_string()],
            &root,
            &vec!["old-name".to_string()],
        )
        .unwrap();
    assert_eq!(plan.final_branch, "fresh-2");
    assert_eq!(plan.old_branch, "old-name");
    assert_eq!(plan.branch_cmd, vec!["branch", "-m", "old-name", "fresh-2"]);
    assert_eq!(plan.rollback_cmd, vec!["branch", "-m", "fresh-2", "old-name"]);
    assert_eq!(plan.next_path, "/data/worktrees/fresh-2");
    assert!(plan.move_needed);
    assert!(plan.was_connected);
    let (res, evicted) = core.commit_rename_worktree(
        &w.id,
        &plan.final_branch,
        &plan.next_path,
        Ok(()),
        Some(Ok(SessionHandle { token: 7 })),
    );
    let info = res.unwrap();
    assert_eq!(info.name, "fresh-2");
    assert_eq!(info.path, "/data/worktrees/fresh-2");
    assert!(info.connected);
    assert_eq!(evicted, Some(SessionHandle { token: 2 }));
}

#[test]
fn settings_update_respawns_only_changed_children() {
    let mut core = new_core();
    let a = add_main(&mut core, "/tmp/a", 1);
    let w1 = add_worktree(&mut core, &a.id, "one", &[], 2);
    let _w2 = add_worktree(&mut core, &a.id, "two", &["one"], 3);
    // Disconnect w2: disconnected children are skipped.
    let taken = core.sessions.take(&_w2.id);
    assert_eq!(taken, Some(SessionHandle { token: 3 }));

    let new_settings = WorkspaceSettings {
        codex_home: Some("/custom/home".to_string()),
        codex_args: None,
        group_id: None,
    };
    let plan = core.plan_update_settings(&a.id, &new_settings).unwrap();
    assert!(plan.changed);
    assert!(plan.own_respawn);
    let own = plan.own_spawn.as_ref().expect("own spawn plan");
    assert_eq!(own.home, "/custom/home");
    assert_eq!(plan.child_spawns.len(), 1);
    assert_eq!(plan.child_spawns[0].workspace_id, w1.id);
    assert_eq!(plan.child_spawns[0].home, "/custom/home");
}

#[test]
fn settings_update_spawn_failure_restores_previous_entry() {
    let mut core = new_core();
    let a = add_main(&mut core, "/tmp/a", 1);
    let new_settings = WorkspaceSettings {
        codex_home: Some("/custom/home".to_string()),
        codex_args: None,
        group_id: None,
    };
    let (res, kills) = core.commit_update_settings(
        &a.id,
        new_settings,
        true,
        Some(Err("no such binary".to_string())),
        &Vec::new(),
        Ok(()),
    );
    match res {
        Err(WsError::Spawn(m)) => assert_eq!(m, "no such binary"),
        other => panic!("expected spawn error, got {:?}", other.map(|i| i.id)),
    }
    assert!(kills.is_empty());
    assert!(core.registry.entries[0].settings.codex_home.is_none());
    assert_eq!(registry_ids(&core), store_ids(&core));
}

#[test]
fn settings_update_success_persists_new_settings() {
    let mut core = new_core();
    let a = add_main(&mut core, "/tmp/a", 1);
    let new_settings = WorkspaceSettings {
        codex_home: None,
        codex_args: Some(vec!["--extra".to_string()]),
        group_id: Some("g1".to_string()),
    };
    let (res, kills) = core.commit_update_settings(
        &a.id,
        new_settings,
        true,
        Some(Ok(SessionHandle { token: 5 })),
        &Vec::new(),
        Ok(()),
    );
    let info = res.unwrap();
    assert_eq!(info.settings.codex_args, Some(vec!["--extra".to_string()]));
    assert_eq!(info.settings.group_id, Some("g1".to_string()));
    assert!(info.connected);
    assert_eq!(kills, vec![SessionHandle { token: 1 }]);
    assert_eq!(
        core.store[0].settings.codex_args,
        Some(vec!["--extra".to_string()])
    );
}

#[test]
fn update_codex_bin_persists_only_that_field() {
    let mut core = new_core();
    let a = add_main(&mut core, "/tmp/a", 1);
    let info = core
        .update_codex_bin(&a.id, Some("/opt/codex".to_string()), Ok(()))
        .unwrap();
    assert_eq!(info.codex_bin, Some("/opt/codex".to_string()));
    assert_eq!(info.name, a.name);
    assert!(info.connected);
    let r = core.update_codex_bin(&"missing".to_string(), None, Ok(()));
    assert!(matches!(r, Err(WsError::NotFound(Missing::Workspace))));
}

#[test]
fn connect_installs_new_session_before_returning_old() {
    let mut core = new_core();
    let a = add_main(&mut core, "/tmp/a", 1);
    let plan = core.plan_connect(&a.id).unwrap();
    assert_eq!(plan.workspace_id, a.id);
    assert_eq!(plan.program, "codex");
    assert_eq!(plan.args, vec!["--global".to_string()]);
    let (res, evicted) = core.commit_connect(&a.id, Ok(SessionHandle { token: 8 }));
    res.unwrap();
    assert_eq!(evicted, Some(SessionHandle { token: 1 }));
}

#[test]
fn workspace_root_reports_not_found() {
    let mut core = new_core();
    let a = add_main(&mut core, "/tmp/a", 1);
    assert_eq!(core.workspace_root(&a.id).unwrap(), "/tmp/a");
    let r = core.workspace_root(&"zzz".to_string());
    match r {
        Err(e) => assert_eq!(e.message(), "workspace not found"),
        Ok(_) => panic!("expected not found"),
    }
}

#[test]
fn list_sorts_mains_before_worktrees_then_by_name_case_insensitively() {
    let mut core = new_core();
    let b = add_main(&mut core, "/tmp/Beta", 1);
    let a = add_main(&mut core, "/tmp/alpha", 2);
    let w = add_worktree(&mut core, &a.id, "Aardvark", &[], 3);
    let listed = core.list_workspaces();
    let names: Vec<&str> = listed.iter().map(|i| i.name.as_str()).collect();
    assert_eq!(names, vec!["alpha", "Beta", "Aardvark"]);
    assert_eq!(listed[0].id, a.id);
    assert_eq!(listed[1].id, b.id);
    assert_eq!(listed[2].id, w.id);
}

#[test]
fn plan_add_workspace_rejects_non_directory() {
    let core = new_core();
    let r = core.plan_add_workspace(&"/tmp/file".to_string(), None, false);
    match r {
        Err(e @ WsError::Validation(Invalid::NotAFolder)) => {
            assert_eq!(e.message(), "Workspace path must be a folder.");
        },
        other => panic!("expected validation error, got {:?}", other.map(|p| p.0.id)),
    }
}

#[test]
fn clone_plan_inherits_group_and_builds_destination() {
    let mut core = new_core();
    let a = add_main(&mut core, "/tmp/a", 1);
    let (res, _) = core.commit_update_settings(
        &a.id,
        WorkspaceSettings {
            codex_home: None,
            codex_args: None,
            group_id: Some("team".to_string()),
        },
        false,
        None,
        &Vec::new(),
        Ok(()),
    );
    res.unwrap();
    let w = add_worktree(&mut core, &a.id, "feature", &[], 2);
    let plan = core
        .plan_add_clone(
            &w.id,
            &" Copy One ".to_string(),
            &" /tmp/copies ".to_string(),
            Some("git@example.invalid:team/proj.git".to_string()),
        )
        .unwrap();
    assert_eq!(plan.destination, "/tmp/copies/Copy-One");
    assert_eq!(plan.entry.name, "Copy One");
    assert_eq!(plan.entry.settings.group_id, Some("team".to_string()));
    assert_eq!(
        plan.clone_cmd,
        vec!["clone", w.path.as_str(), "/tmp/copies/Copy-One"]
    );
    assert_eq!(
        plan.set_url_cmd,
        Some(vec![
            "remote".to_string(),
            "set-url".to_string(),
            "origin".to_string(),
            "git@example.invalid:team/proj.git".to_string()
        ])
    );
    let plan = core
        .plan_add_clone(&w.id, &"Second".to_string(), &"/tmp/copies".to_string(), None)
        .unwrap();
    assert!(plan.set_url_cmd.is_none());
}

#[test]
fn clone_plan_validates_names() {
    let core = new_core();
    let r = core.plan_add_clone(&"x".to_string(), &"  ".to_string(), &"/tmp".to_string(), None);
    assert!(matches!(r, Err(WsError::Validation(Invalid::EmptyCopyName))));
    let r = core.plan_add_clone(&"x".to_string(), &"c".to_string(), &" ".to_string(), None);
    assert!(matches!(r, Err(WsError::Validation(Invalid::EmptyCopiesFolder))));
    let r = core.plan_add_clone(&"x".to_string(), &"c".to_string(), &"/tmp".to_string(), None);
    assert!(matches!(r, Err(WsError::NotFound(Missing::Source))));
}

#[test]
fn upstream_rename_command_sequences() {
    let mut core = new_core();
    let a = add_main(&mut core, "/tmp/a", 1);
    let w = add_worktree(&mut core, &a.id, "old", &[], 2);
    let cmds = core
        .plan_rename_upstream(
            &w.id,
            &"old".to_string(),
            &"new".to_string(),
            true,
            Some("origin".to_string()),
            true,
            false,
        )
        .unwrap();
    assert_eq!(
        cmds,
        vec![
            vec!["push".to_string(), "origin".to_string(), "new:new".to_string()],
            vec!["push".to_string(), "origin".to_string(), ":old".to_string()],
            vec![
                "branch".to_string(),
                "--set-upstream-to".to_string(),
                "origin/new".to_string(),
                "new".to_string()
            ],
        ]
    );
    let cmds = core
        .plan_rename_upstream(
            &w.id,
            &"old".to_string(),
            &"new".to_string(),
            true,
            None,
            true,
            false,
        )
        .unwrap();
    assert_eq!(cmds.len(), 2);
    assert_eq!(cmds[0], vec!["push", "origin", "new"]);
    let r = core.plan_rename_upstream(
        &w.id,
        &"old".to_string(),
        &"new".to_string(),
        false,
        None,
        true,
        false,
    );
    assert!(matches!(r, Err(WsError::NotFound(Missing::LocalBranch))));
    let r = core.plan_rename_upstream(
        &w.id,
        &"old".to_string(),
        &"new".to_string(),
        true,
        None,
        false,
        false,
    );
    assert!(matches!(r, Err(WsError::Validation(Invalid::NoRemote))));
    let r = core.plan_rename_upstream(
        &w.id,
        &"old".to_string(),
        &"new".to_string(),
        true,
        None,
        true,
        true,
    );
    assert!(matches!(r, Err(WsError::Validation(Invalid::RemoteBranchExists))));
    let r = core.plan_rename_upstream(
        &w.id,
        &"same".to_string(),
        &" same ".to_string(),
        true,
        None,
        true,
        false,
    );
    assert!(matches!(r, Err(WsError::Validation(Invalid::BranchUnchanged))));
}

#[test]
fn cascade_resolves_home_and_args() {
    let app = app_settings();
    let parent = WorkspaceEntry {
        id: "p".to_string(),
        name: "p".to_string(),
        path: "/tmp/p".to_string(),
        codex_bin: None,
        kind: WorkspaceKind::Main,
        settings: WorkspaceSettings {
            codex_home: Some("/parent/home".to_string()),
            codex_args: Some(vec!["--parent".to_string()]),
            group_id: None,
        },
    };
    let child = WorkspaceEntry {
        id: "c".to_string(),
        name: "c".to_string(),
        path: "/tmp/c".to_string(),
        codex_bin: None,
        kind: WorkspaceKind::Worktree {
            parent_id: "p".to_string(),
            branch: "b".to_string(),
        },
        settings: WorkspaceSettings {
            codex_home: None,
            codex_args: Some(vec!["--child".to_string()]),
            group_id: None,
        },
    };
    // Worktree without its own home inherits the parent override.
    assert_eq!(
        resolve_codex_home(&child, Some(&parent), &app.home_root),
        "/parent/home"
    );
    // A main entry without overrides falls back to the default layout keyed by id.
    assert_eq!(
        resolve_codex_home(&parent, None, &"/root".to_string()),
        "/parent/home"
    );
    let bare = WorkspaceEntry {
        settings: WorkspaceSettings { codex_home: None, codex_args: None, group_id: None },
        ..clone_entry(&parent)
    };
    assert_eq!(
        resolve_codex_home(&bare, None, &"/root".to_string()),
        "/root/p"
    );
    // Args: global, then parent (worktrees only), then own; duplicates kept.
    let args = resolve_codex_args(&child, Some(&parent), &app);
    assert_eq!(args, vec!["--global", "--parent", "--child"]);
    let args = resolve_codex_args(&parent, None, &app);
    assert_eq!(args, vec!["--global", "--parent"]);
}

fn clone_entry(e: &WorkspaceEntry) -> WorkspaceEntry {
    WorkspaceEntry {
        id: e.id.clone(),
        name: e.name.clone(),
        path: e.path.clone(),
        codex_bin: e.codex_bin.clone(),
        kind: match &e.kind {
            WorkspaceKind::Main => WorkspaceKind::Main,
            WorkspaceKind::Worktree { parent_id, branch } => WorkspaceKind::Worktree {
                parent_id: parent_id.clone(),
                branch: branch.clone(),
            },
        },
        settings: WorkspaceSettings {
            codex_home: e.settings.codex_home.clone(),
            codex_args: e.settings.codex_args.clone(),
            group_id: e.settings.group_id.clone(),
        },
    }
}
