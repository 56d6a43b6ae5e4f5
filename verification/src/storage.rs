//! Where a pool keeps its state, and how state files left in the pool's
//! root by earlier versions are moved into `.meta/`.
use vstd::prelude::*;

use crate::paths::{join_path, path_join};
use crate::text::{chars_of, string_of};

verus! {

/// The directory of the state files: `<pool>/.meta`.
pub open spec fn meta_dir_of(pool_dir: Seq<char>) -> Seq<char> {
    path_join(pool_dir, ".meta"@)
}

/// `<pool>/.meta`.
pub fn meta_dir(pool_dir: &str) -> (p: String)
    ensures
        p@ == meta_dir_of(pool_dir@),
{
    string_of(&join_path(&chars_of(pool_dir), &chars_of(".meta")))
}

/// A file of the pool's state: `<pool>/.meta/<file>`.
pub fn meta_file(pool_dir: &str, file: &str) -> (p: String)
    ensures
        p@ == path_join(meta_dir_of(pool_dir@), file@),
{
    let m = join_path(&chars_of(pool_dir), &chars_of(".meta"));
    string_of(&join_path(&m, &chars_of(file)))
}

/// A file in the pool's root, where earlier versions kept the state:
/// `<pool>/<file>`.
pub fn root_file(pool_dir: &str, file: &str) -> (p: String)
    ensures
        p@ == path_join(pool_dir@, file@),
{
    string_of(&join_path(&chars_of(pool_dir), &chars_of(file)))
}

/// The name of the state file.
pub const STATE_FILE: &'static str = "tree-pool-state.json";

/// The name of the lock file.
pub const LOCK_FILE: &'static str = "tree-pool-state.lock";

/// One step of moving the state files into `.meta/`.
#[derive(PartialEq, Eq, Structural, Debug, Clone, Copy)]
pub enum MigrationStep {
    /// Remove the state file in the pool's root; a failure is ignored.
    RemoveOldState,
    /// Remove the lock file in the pool's root; a failure is ignored.
    RemoveOldLock,
    /// Create `.meta/`; a failure ends the load.
    MakeMetaDir,
    /// Move the state file from the pool's root into `.meta/`; a failure
    /// ends the load.
    MoveOldState,
}

/// The steps that bring old state files into `.meta/`, given which of the
/// old state file, the old lock file and the new state file exist. Nothing is
/// done without old files. When the new state file exists, the old files are
/// dropped; otherwise `.meta/` is made, the old state moved there and the old
/// lock removed.
pub open spec fn migration(old_state: bool, old_lock: bool, new_state: bool) -> Seq<MigrationStep> {
    if !old_state && !old_lock {
        Seq::empty()
    } else if new_state {
        seq![MigrationStep::RemoveOldState, MigrationStep::RemoveOldLock]
    } else {
        seq![MigrationStep::MakeMetaDir] + (if old_state {
            seq![MigrationStep::MoveOldState]
        } else {
            Seq::empty()
        }) + (if old_lock {
            seq![MigrationStep::RemoveOldLock]
        } else {
            Seq::empty()
        })
    }
}

/// The migration steps to take, in order.
pub fn migration_plan(old_state: bool, old_lock: bool, new_state: bool) -> (v: Vec<MigrationStep>)
    ensures
        v@ == migration(old_state, old_lock, new_state),
{
    let mut v: Vec<MigrationStep> = Vec::new();
    if !old_state && !old_lock {
        return v;
    }
    if new_state {
        v.push(MigrationStep::RemoveOldState);
        v.push(MigrationStep::RemoveOldLock);
        assert(v@ =~= migration(old_state, old_lock, new_state));
        return v;
    }
    v.push(MigrationStep::MakeMetaDir);
    if old_state {
        v.push(MigrationStep::MoveOldState);
    }
    if old_lock {
        v.push(MigrationStep::RemoveOldLock);
    }
    assert(v@ =~= migration(old_state, old_lock, new_state));
    v
}

/// After a migration the old state file is gone from the pool's root: it is
/// moved or removed whenever it exists, and an existing new state file is
/// never overwritten.
pub proof fn law_migration_keeps_new_state(old_state: bool, old_lock: bool, new_state: bool)
    ensures
        old_state ==> (migration(old_state, old_lock, new_state).contains(MigrationStep::MoveOldState)
            || migration(old_state, old_lock, new_state).contains(MigrationStep::RemoveOldState)),
        new_state ==> !migration(old_state, old_lock, new_state).contains(MigrationStep::MoveOldState),
        old_lock ==> migration(old_state, old_lock, new_state).contains(MigrationStep::RemoveOldLock),
{
    let m = migration(old_state, old_lock, new_state);
    if old_state || old_lock {
        if new_state {
            assert(m[0] == MigrationStep::RemoveOldState);
            assert(m[1] == MigrationStep::RemoveOldLock);
        } else {
            assert(m[0] == MigrationStep::MakeMetaDir);
            if old_state {
                assert(m[1] == MigrationStep::MoveOldState);
                if old_lock {
                    assert(m[2] == MigrationStep::RemoveOldLock);
                }
            } else {
                assert(m[1] == MigrationStep::RemoveOldLock);
            }
        }
    }
}

} // verus!
