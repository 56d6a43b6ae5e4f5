//! Giving a tree back or destroying it: which tree is meant, and when the
//! work in it stops the request.
use vstd::prelude::*;

use crate::git::{chars_of_all, texts};
use crate::text::{chars_of, join, join_chars, string_of};

verus! {

/// The tree a `tp return` without a path means: the given path, else the
/// tree the shell was opened in (`TREE_POOL_DIR`), else the current directory.
pub fn return_target(arg: Option<String>, tree_pool_dir: Option<String>, cwd: String) -> (p: String)
    ensures
        p == match arg {
            Some(a) => a,
            None => match tree_pool_dir {
                Some(t) => t,
                None => cwd,
            },
        },
{
    match arg {
        Some(a) => a,
        None => match tree_pool_dir {
            Some(t) => t,
            None => cwd,
        },
    }
}

/// Why a tree may not be returned or destroyed without `--force`.
pub enum Refusal {
    /// It has uncommitted changes.
    Dirty,
    /// These branches are not on any remote, or are ahead of it.
    Unpushed(Vec<String>),
}

/// What the check before returning or destroying a tree asks or decides.
pub enum GuardStep {
    /// Ask whether the tree is dirty.
    CheckDirty,
    /// Ask for its unpushed branches.
    CheckUnpushed,
    /// Go ahead.
    Proceed,
    /// Stop.
    Refuse(Refusal),
}

/// Without `--force`, a dirty tree is refused, then one with unpushed
/// branches; the branches are only asked for once the tree is known clean.
/// `dirty` and `unpushed` are the answers received so far.
pub fn release_guard(force: bool, dirty: Option<bool>, unpushed: Option<Vec<String>>) -> (s: GuardStep)
    ensures
        force ==> s is Proceed,
        !force ==> match dirty {
            None => s is CheckDirty,
            Some(true) => s matches GuardStep::Refuse(Refusal::Dirty),
            Some(false) => match unpushed {
                None => s is CheckUnpushed,
                Some(u) => if u@.len() == 0 {
                    s is Proceed
                } else {
                    s matches GuardStep::Refuse(Refusal::Unpushed(v)) && v == u
                },
            },
        },
{
    if force {
        return GuardStep::Proceed;
    }
    match dirty {
        None => GuardStep::CheckDirty,
        Some(true) => GuardStep::Refuse(Refusal::Dirty),
        Some(false) => match unpushed {
            None => GuardStep::CheckUnpushed,
            Some(u) => if u.len() == 0 {
                GuardStep::Proceed
            } else {
                GuardStep::Refuse(Refusal::Unpushed(u))
            },
        },
    }
}

/// Branch names as messages list them: separated by `, `.
pub fn join_names(names: &Vec<String>) -> (s: String)
    ensures
        s@ == join(texts(names@), ", "@),
{
    string_of(&join_chars(&chars_of_all(names), &chars_of(", ")))
}

} // verus!
