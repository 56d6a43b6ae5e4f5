//! The decisions of `tp destroy`: which trees go, which stay, and when the
//! user is asked first.
//!
//! Without `--force`, a tree in use is never destroyed and the user confirms
//! before anything is removed; the checks for uncommitted work and unpushed
//! branches that follow are those of `release::release_guard`.
use vstd::prelude::*;

verus! {

/// What `tp destroy <path>` does next.
pub enum OneStep {
    /// No path was given (and not `--all`): refuse.
    NoPath,
    /// Look the path up among the pool's trees.
    Lookup,
    /// The path is no tree of the pool: refuse.
    NotATree,
    /// Ask whether a process works in the tree.
    CheckInUse,
    /// The tree is in use: refuse.
    InUse,
    /// Ask the user to confirm.
    Confirm,
    /// The user said no: stop, changing nothing.
    Declined,
    /// Destroy the tree.
    Destroy,
}

/// `tp destroy <path>`: a path is needed and must name a tree of the pool.
/// Without `--force`, a tree in use is refused and the user is asked before
/// it goes; with `--force` it goes at once. `found`, `in_use` and
/// `confirmed` are the answers received so far.
pub fn destroy_one_step(
    force: bool,
    path_given: bool,
    found: Option<bool>,
    in_use: Option<bool>,
    confirmed: Option<bool>,
) -> (s: OneStep)
    ensures
        !path_given ==> s is NoPath,
        path_given ==> match found {
            None => s is Lookup,
            Some(false) => s is NotATree,
            Some(true) => if force {
                s is Destroy
            } else {
                match in_use {
                    None => s is CheckInUse,
                    Some(true) => s is InUse,
                    Some(false) => match confirmed {
                        None => s is Confirm,
                        Some(false) => s is Declined,
                        Some(true) => s is Destroy,
                    },
                }
            },
        },
{
    if !path_given {
        return OneStep::NoPath;
    }
    match found {
        None => OneStep::Lookup,
        Some(false) => OneStep::NotATree,
        Some(true) => {
            if force {
                return OneStep::Destroy;
            }
            match in_use {
                None => OneStep::CheckInUse,
                Some(true) => OneStep::InUse,
                Some(false) => match confirmed {
                    None => OneStep::Confirm,
                    Some(false) => OneStep::Declined,
                    Some(true) => OneStep::Destroy,
                },
            }
        },
    }
}

/// How `tp destroy --all` begins.
pub enum AllStart {
    /// The pool holds no tree: say so and stop.
    NothingToDo,
    /// Ask the user to confirm the removal of every tree.
    Confirm,
    /// The user said no: stop, changing nothing.
    Declined,
    /// Go through the trees.
    Proceed,
}

/// `tp destroy --all`: nothing happens in an empty pool; otherwise the user
/// confirms first unless `--force` is given.
pub fn destroy_all_start(force: bool, tree_count: usize, confirmed: Option<bool>) -> (s: AllStart)
    ensures
        tree_count == 0 ==> s is NothingToDo,
        tree_count > 0 ==> if force {
            s is Proceed
        } else {
            match confirmed {
                None => s is Confirm,
                Some(false) => s is Declined,
                Some(true) => s is Proceed,
            }
        },
{
    if tree_count == 0 {
        AllStart::NothingToDo
    } else if force {
        AllStart::Proceed
    } else {
        match confirmed {
            None => AllStart::Confirm,
            Some(false) => AllStart::Declined,
            Some(true) => AllStart::Proceed,
        }
    }
}

/// What `tp destroy --all` does with one tree.
pub enum TreeAction {
    /// Ask whether a process works in it.
    CheckInUse,
    /// Leave it: it is in use.
    Skip,
    /// Destroy it.
    Destroy,
}

/// Under `--all`, each tree goes unless, without `--force`, a process works
/// in it; with `--force` nobody is asked.
pub fn destroy_all_tree(force: bool, in_use: Option<bool>) -> (a: TreeAction)
    ensures
        force ==> a is Destroy,
        !force ==> match in_use {
            None => a is CheckInUse,
            Some(true) => a is Skip,
            Some(false) => a is Destroy,
        },
{
    if force {
        TreeAction::Destroy
    } else {
        match in_use {
            None => TreeAction::CheckInUse,
            Some(true) => TreeAction::Skip,
            Some(false) => TreeAction::Destroy,
        }
    }
}

} // verus!
