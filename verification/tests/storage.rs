use tree_pool::storage::{
    meta_dir, meta_file, migration_plan, root_file, MigrationStep, LOCK_FILE, STATE_FILE,
};

#[test]
fn state_lives_in_meta_dir() {
    assert_eq!(meta_dir("/pool"), "/pool/.meta");
    assert_eq!(meta_file("/pool", STATE_FILE), "/pool/.meta/tree-pool-state.json");
    assert_eq!(meta_file("/pool", LOCK_FILE), "/pool/.meta/tree-pool-state.lock");
    assert_eq!(root_file("/pool", STATE_FILE), "/pool/tree-pool-state.json");
}

#[test]
fn migration_moves_old_state_and_drops_old_lock() {
    assert_eq!(
        migration_plan(true, true, false),
        vec![
            MigrationStep::MakeMetaDir,
            MigrationStep::MoveOldState,
            MigrationStep::RemoveOldLock
        ]
    );
    assert_eq!(
        migration_plan(true, false, false),
        vec![MigrationStep::MakeMetaDir, MigrationStep::MoveOldState]
    );
    assert_eq!(
        migration_plan(false, true, false),
        vec![MigrationStep::MakeMetaDir, MigrationStep::RemoveOldLock]
    );
}

#[test]
fn migration_keeps_existing_new_state() {
    assert_eq!(
        migration_plan(true, false, true),
        vec![MigrationStep::RemoveOldState, MigrationStep::RemoveOldLock]
    );
}

#[test]
fn migration_without_old_files_does_nothing() {
    assert!(migration_plan(false, false, true).is_empty());
    assert!(migration_plan(false, false, false).is_empty());
}
