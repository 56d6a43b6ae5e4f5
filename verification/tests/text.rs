use tree_pool::gitignore::{climb_step, rejoin, ClimbStep};
use tree_pool::branch::{branch_menu, new_branch_name, select_branch, NewBranchError};
use tree_pool::gitignore::{ensure_ignored, ignore_entry};
use tree_pool::prompt::{answer, confirm, confirm_suffix};
use tree_pool::release::{join_names, release_guard, return_target, GuardStep, Refusal};
use tree_pool::shell::resolve_shell;

#[test]
fn adds_entry_to_gitignore() {
    let entry = ignore_entry("/r/.tree-pool/repo-abc123", "/r").unwrap();
    assert_eq!(entry, "/.tree-pool/repo-abc123");
    let contents = ensure_ignored(&entry, None).unwrap();
    assert!(contents.contains("/.tree-pool/repo-abc123"));
}

#[test]
fn idempotent_does_not_duplicate() {
    let entry = ignore_entry("/r/.tree-pool/repo-abc123", "/r").unwrap();
    let first = ensure_ignored(&entry, None).unwrap();
    assert!(ensure_ignored(&entry, Some(first.clone())).is_none());
    assert_eq!(first.matches("/.tree-pool/repo-abc123").count(), 1);
}

#[test]
fn preserves_existing_gitignore_content() {
    let entry = ignore_entry("/r/.tree-pool/repo-abc123", "/r").unwrap();
    let contents = ensure_ignored(&entry, Some("*.log\n".to_string())).unwrap();
    assert!(contents.contains("*.log"));
    assert!(contents.contains("/.tree-pool/repo-abc123"));
    assert_eq!(contents, "*.log\n/.tree-pool/repo-abc123\n");
    let no_newline = ensure_ignored(&entry, Some("*.log".to_string())).unwrap();
    assert_eq!(no_newline, "*.log\n/.tree-pool/repo-abc123\n");
}

#[test]
fn outside_pool_needs_no_entry() {
    assert!(ignore_entry("/home/u/.tree-pool/repo-abc123", "/r").is_none());
    assert!(ensure_ignored("/x", Some("  /x  \r\n".to_string())).is_none());
}

#[test]
fn branch_menu_and_selection() {
    let branches = vec!["main".to_string(), "dev".to_string()];
    assert_eq!(branch_menu(&branches), vec!["[ Create new branch ]", "main", "dev"]);
    assert!(select_branch(&branches, 0).is_none());
    assert_eq!(select_branch(&branches, 2).unwrap(), "dev");
}

#[test]
fn new_branch_names_are_checked() {
    let existing = vec!["main".to_string()];
    assert_eq!(new_branch_name("  feat  \n", &existing).ok().unwrap(), "feat");
    assert!(matches!(new_branch_name("   ", &existing), Err(NewBranchError::Empty)));
    match new_branch_name("main", &existing) {
        Err(NewBranchError::Exists(n)) => assert_eq!(n, "main"),
        _ => panic!("expected refusal"),
    }
}

#[test]
fn confirm_answers() {
    assert_eq!(confirm(" YES \n", false).ok(), Some(true));
    assert_eq!(confirm("n", true).ok(), Some(false));
    assert_eq!(confirm("\n", true).ok(), Some(true));
    assert_eq!(confirm("", false).ok(), Some(false));
    assert_eq!(confirm("Maybe", false).err(), Some("invalid input: maybe".to_string()));
    assert_eq!(answer("no", true).ok(), Some(false));
    assert_eq!(confirm_suffix(true), "[Y/n]");
    assert_eq!(confirm_suffix(false), "[y/N]");
}

#[test]
fn release_checks_in_order() {
    assert!(matches!(release_guard(true, None, None), GuardStep::Proceed));
    assert!(matches!(release_guard(false, None, None), GuardStep::CheckDirty));
    assert!(matches!(release_guard(false, Some(true), None), GuardStep::Refuse(Refusal::Dirty)));
    assert!(matches!(release_guard(false, Some(false), None), GuardStep::CheckUnpushed));
    assert!(matches!(release_guard(false, Some(false), Some(vec![])), GuardStep::Proceed));
    match release_guard(false, Some(false), Some(vec!["a".to_string(), "b".to_string()])) {
        GuardStep::Refuse(Refusal::Unpushed(v)) => assert_eq!(join_names(&v), "a, b"),
        _ => panic!("expected refusal"),
    }
}

#[test]
fn return_target_order() {
    assert_eq!(return_target(Some("/a".to_string()), Some("/b".to_string()), "/c".to_string()), "/a");
    assert_eq!(return_target(None, Some("/b".to_string()), "/c".to_string()), "/b");
    assert_eq!(return_target(None, None, "/c".to_string()), "/c");
}

#[test]
fn shell_default() {
    assert_eq!(resolve_shell(None), "/bin/sh");
    assert_eq!(resolve_shell(Some("/bin/zsh".to_string())), "/bin/zsh");
}

#[test]
fn climb_to_existing_ancestor_and_back() {
    let path = "/repo/.tree-pool/r-abc123";
    match climb_step(path, &vec![]) {
        ClimbStep::Ask(q) => assert_eq!(q, path),
        _ => panic!("expected a question"),
    }
    match climb_step(path, &vec![false]) {
        ClimbStep::Ask(q) => assert_eq!(q, "/repo/.tree-pool"),
        _ => panic!("expected a question"),
    }
    match climb_step(path, &vec![false, false, true]) {
        ClimbStep::Reached { base, climbed, found } => {
            assert_eq!(base, "/repo");
            assert_eq!(climbed, vec!["r-abc123", ".tree-pool"]);
            assert!(found);
            assert_eq!(rejoin("/private/repo", &climbed), "/private/repo/.tree-pool/r-abc123");
        }
        _ => panic!("expected the climb to end"),
    }
    match climb_step("/a", &vec![false, false]) {
        ClimbStep::Reached { base, climbed, found } => {
            assert_eq!(base, "/");
            assert_eq!(climbed, vec!["a"]);
            assert!(!found);
        }
        _ => panic!("expected the climb to end"),
    }
}
