use workspace_orchestrator::errors::WsError;
use workspace_orchestrator::gitcmd::{decide_worktree_remove, is_missing_worktree_error, RemoveStep};
use workspace_orchestrator::naming::{
    basename_of, pick_unique_name, sanitize_worktree_name, u64_to_dec, unique_branch_name,
};
use workspace_orchestrator::reconcile::{
    assemble_patch, classify_apply, gate_parent_clean, gate_patch_nonempty, split_nul,
};
use workspace_orchestrator::remote::{
    normalize_path_for_remote, remote_add_clone, remote_add_workspace, remote_add_worktree,
    remote_apply_changes, remote_id_op, remote_plain_op, remote_rename_upstream,
    remote_update_codex_bin, remote_update_settings, ParamValue,
};
use workspace_orchestrator::types::WorkspaceSettings;
use workspace_orchestrator::text::{str_contains, trim_string};

#[test]
fn empty_patch_always_fails_with_no_changes() {
    let staged: Vec<u8> = Vec::new();
    let unstaged: Vec<u8> = Vec::new();
    let untracked: Vec<Vec<u8>> = Vec::new();
    let patch = assemble_patch(&staged, &unstaged, &untracked);
    assert!(patch.is_empty());
    let first = gate_patch_nonempty(&patch);
    match first {
        Err(e @ WsError::NoChanges) => assert_eq!(e.message(), "No changes to apply."),
        other => panic!("expected no-changes error, got {:?}", other),
    }
    // Applying again with no intervening edits fails identically.
    let patch2 = assemble_patch(&staged, &unstaged, &untracked);
    assert!(matches!(gate_patch_nonempty(&patch2), Err(WsError::NoChanges)));
    // Whitespace-only output still counts as empty.
    let blank = b" \n\t\r ".to_vec();
    assert!(matches!(gate_patch_nonempty(&blank), Err(WsError::NoChanges)));
    // An actual diff is let through.
    let real = b"diff --git a/x b/x\n".to_vec();
    assert!(gate_patch_nonempty(&real).is_ok());
}

#[test]
fn dirty_parent_is_rejected() {
    let clean = b"\n".to_vec();
    assert!(gate_parent_clean(&clean).is_ok());
    let dirty = b" M src/main.rs\n".to_vec();
    match gate_parent_clean(&dirty) {
        Err(e @ WsError::DirtyParent) => {
            assert!(e.message().starts_with("Your current branch has uncommitted changes."));
        },
        other => panic!("expected dirty-parent error, got {:?}", other),
    }
}

#[test]
fn patch_concatenates_streams_in_order() {
    let staged = b"AA".to_vec();
    let unstaged = b"BB".to_vec();
    let untracked = vec![b"CC".to_vec(), b"DD".to_vec()];
    let patch = assemble_patch(&staged, &unstaged, &untracked);
    assert_eq!(patch, b"AABBCCDD".to_vec());
}

#[test]
fn untracked_listing_splits_on_nul_and_drops_empties() {
    let listing = b"a.txt\0dir/b bin\0\0c\0".to_vec();
    let pieces = split_nul(&listing);
    assert_eq!(
        pieces,
        vec![b"a.txt".to_vec(), b"dir/b bin".to_vec(), b"c".to_vec()]
    );
    assert!(split_nul(&Vec::new()).is_empty());
    assert!(split_nul(&b"\0\0".to_vec()).is_empty());
}

#[test]
fn apply_classification_covers_every_outcome() {
    let ok = classify_apply(true, &"anything".to_string(), &"noise".to_string());
    assert!(ok.is_ok());
    let conflict = classify_apply(
        false,
        &"".to_string(),
        &"error: ...\nApplied patch to 'x' with conflicts.\n".to_string(),
    );
    assert!(matches!(conflict, Err(WsError::Conflict)));
    let partial = classify_apply(
        false,
        &"Applied patch to 'x' cleanly.".to_string(),
        &"  ".to_string(),
    );
    assert!(matches!(partial, Err(WsError::PartialApply)));
    let raw = classify_apply(false, &"".to_string(), &"  fatal: corrupt patch  ".to_string());
    match raw {
        Err(WsError::Git(m)) => assert_eq!(m, "fatal: corrupt patch"),
        other => panic!("expected raw git error, got {:?}", other),
    }
    let silent = classify_apply(false, &" \n".to_string(), &"\t".to_string());
    match silent {
        Err(e @ WsError::ApplyFailed) => assert_eq!(e.message(), "Git apply failed."),
        other => panic!("expected bare failure, got {:?}", other),
    }
}

#[test]
fn missing_worktree_classifier_reads_stderr() {
    let missing = "fatal: '/tmp/x' is not a working tree".to_string();
    assert!(is_missing_worktree_error(&missing));
    let other = "fatal: not a git repository".to_string();
    assert!(!is_missing_worktree_error(&other));

    assert_eq!(decide_worktree_remove(&Ok(()), true), RemoveStep::Done);
    assert_eq!(decide_worktree_remove(&Err(missing.clone()), true), RemoveStep::RemoveDir);
    assert_eq!(decide_worktree_remove(&Err(missing), false), RemoveStep::Done);
    assert_eq!(decide_worktree_remove(&Err(other), true), RemoveStep::Fail);
}

#[test]
fn sanitize_replaces_reserved_characters() {
    assert_eq!(sanitize_worktree_name(&"feature/one".to_string()), "feature-one");
    assert_eq!(sanitize_worktree_name(&"a\\b:c*d?e\"f<g>h|i".to_string()), "a-b-c-d-e-f-g-h-i");
    assert_eq!(sanitize_worktree_name(&"plain-name_1".to_string()), "plain-name_1");
}

#[test]
fn numeric_suffixes_count_from_two() {
    let taken = vec!["wt".to_string(), "wt-2".to_string()];
    assert_eq!(pick_unique_name(&taken, &"wt".to_string()), "wt-3");
    assert_eq!(pick_unique_name(&taken, &"other".to_string()), "other");
    assert_eq!(u64_to_dec(0), "0");
    assert_eq!(u64_to_dec(7), "7");
    assert_eq!(u64_to_dec(12), "12");
    assert_eq!(u64_to_dec(120034), "120034");
}

#[test]
fn branch_allocation_reports_suffixing() {
    let existing = vec!["main".to_string(), "dev".to_string()];
    let (name, suffixed) = unique_branch_name(&existing, &"topic".to_string(), None);
    assert_eq!(name, "topic");
    assert!(!suffixed);
    let (name, suffixed) = unique_branch_name(&existing, &"dev".to_string(), None);
    assert_eq!(name, "dev-2");
    assert!(suffixed);
    let dev = "dev".to_string();
    let (name, suffixed) = unique_branch_name(&existing, &"dev".to_string(), Some(&dev));
    assert_eq!(name, "dev");
    assert!(!suffixed);
}

#[test]
fn basename_handles_edges() {
    assert_eq!(basename_of(&"/tmp/proj".to_string()), "proj");
    assert_eq!(basename_of(&"/tmp/proj/".to_string()), "proj");
    assert_eq!(basename_of(&"/".to_string()), "Workspace");
    assert_eq!(basename_of(&"".to_string()), "Workspace");
    assert_eq!(basename_of(&"plain".to_string()), "plain");
}

#[test]
fn trim_and_contains_match_expectations() {
    assert_eq!(trim_string(&"  a b \t\n".to_string()), "a b");
    assert_eq!(trim_string(&" \t ".to_string()), "");
    assert_eq!(trim_string(&"x".to_string()), "x");
    assert!(str_contains("Applied patch to 'f'", "Applied patch to"));
    assert!(!str_contains("short", "longer needle"));
    assert!(str_contains("anything", ""));
}

fn text_of(v: &ParamValue) -> Option<&str> {
    match v {
        ParamValue::Text(s) => Some(s.as_str()),
        _ => None,
    }
}

#[test]
fn remote_requests_normalize_paths() {
    assert_eq!(
        normalize_path_for_remote(&"C:\\work\\proj".to_string()),
        "C:/work/proj"
    );
    let req = remote_add_workspace(&"C:\\work\\proj".to_string(), None);
    assert_eq!(req.op, "add_workspace");
    assert_eq!(req.params[0].key, "path");
    assert_eq!(text_of(&req.params[0].value), Some("C:/work/proj"));
    assert_eq!(req.params[1].key, "codex_bin");
    assert!(matches!(req.params[1].value, ParamValue::Absent));
    let req = remote_add_worktree(&"p1".to_string(), &"branch".to_string());
    assert_eq!(req.op, "add_worktree");
    let req = remote_id_op("remove_workspace", &"id9".to_string());
    assert_eq!(req.op, "remove_workspace");
    assert_eq!(text_of(&req.params[0].value), Some("id9"));
}

#[test]
fn every_operation_has_a_remote_request_form() {
    let req = remote_add_clone(
        &"src1".to_string(),
        &"Copy".to_string(),
        &"C:\\copies".to_string(),
    );
    assert_eq!(req.op, "add_clone");
    assert_eq!(req.params[0].key, "sourceWorkspaceId");
    assert_eq!(text_of(&req.params[2].value), Some("C:/copies"));

    let req = remote_apply_changes(&"w1".to_string());
    assert_eq!(req.op, "apply_worktree_changes");
    assert_eq!(req.params[0].key, "workspaceId");

    let req = remote_rename_upstream(&"w1".to_string(), &"old".to_string(), &"new".to_string());
    assert_eq!(req.op, "rename_worktree_upstream");
    assert_eq!(req.params[1].key, "oldBranch");
    assert_eq!(req.params[2].key, "newBranch");

    let settings = WorkspaceSettings {
        codex_home: Some("/h".to_string()),
        codex_args: Some(vec!["-a".to_string(), "-b".to_string()]),
        group_id: None,
    };
    let req = remote_update_settings(&"w1".to_string(), &settings);
    assert_eq!(req.op, "update_workspace_settings");
    assert_eq!(text_of(&req.params[1].value), Some("/h"));
    match &req.params[2].value {
        ParamValue::List(v) => assert_eq!(v, &vec!["-a".to_string(), "-b".to_string()]),
        other => panic!("expected a list, got {:?}", other),
    }
    assert!(matches!(req.params[3].value, ParamValue::Absent));

    let req = remote_update_codex_bin(&"w1".to_string(), Some("C:\\bin\\codex".to_string()));
    assert_eq!(req.op, "update_workspace_codex_bin");
    assert_eq!(text_of(&req.params[1].value), Some("C:/bin/codex"));

    let req = remote_plain_op("list_workspaces");
    assert_eq!(req.op, "list_workspaces");
    assert!(req.params.is_empty());
}
