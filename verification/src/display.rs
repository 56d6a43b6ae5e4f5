//! How trees are shown: paths under the home directory as `~/...`, and the
//! rows of `tp status`.
use vstd::prelude::*;

use crate::config::home_dir;
use crate::paths::{path_starts_with, path_strip_prefix, same_path, same_path_as, starts_with_path, strip_path_prefix};
use crate::process::ProcessInfo;
use crate::text::{chars_of, concat, decimal, decimal_chars, join, join_chars, pad_left, pad_left_chars, pad_right, pad_right_chars, string_of, views};

verus! {

/// `path` with a leading home directory `home` written as `~/`.
pub open spec fn pretty(path: Seq<char>, home: Option<Seq<char>>) -> Seq<char> {
    match home {
        Some(h) => match path_strip_prefix(path, h) {
            Some(rel) => "~/"@ + rel,
            None => path,
        },
        None => path,
    }
}

/// `path` for display, given the home directory that is known.
pub fn pretty_path_with(path: &str, home: Option<String>) -> (r: String)
    ensures
        r@ == pretty(
            path@,
            match home {
                Some(h) => Some(h@),
                None => None,
            },
        ),
{
    let p = chars_of(path);
    if let Some(h) = home {
        if let Some(rel) = strip_path_prefix(&p, &chars_of(h.as_str())) {
            return string_of(&concat(&chars_of("~/"), &rel));
        }
    }
    string_of(&p)
}

/// `path` for display, with the user's home directory shown as `~`.
pub fn pretty_path(path: &str) -> (r: String)
    ensures
        exists|home: Option<Seq<char>>| r@ == pretty(path@, home),
{
    let home = home_dir();
    let ghost hv = match &home {
        Some(h) => Some(h@),
        None => None,
    };
    let r = pretty_path_with(path, home);
    assert(r@ == pretty(path@, hv));
    r
}

/// The working directory lies at or below the tree (both canonical); with no
/// known working directory, it does not.
pub open spec fn within(path: Seq<char>, cwd: Option<Seq<char>>) -> bool {
    match cwd {
        Some(c) => same_path(c, path) || path_starts_with(c, path),
        None => false,
    }
}

/// Whether the current directory `cwd` is the tree at `path` or lies inside it.
pub fn is_current_dir(path: &str, cwd: Option<String>) -> (b: bool)
    ensures
        b == within(
            path@,
            match cwd {
                Some(c) => Some(c@),
                None => None,
            },
        ),
{
    match cwd {
        None => false,
        Some(c) => {
            let cs = chars_of(c.as_str());
            let ps = chars_of(path);
            same_path_as(&cs, &ps) || starts_with_path(&cs, &ps)
        },
    }
}

/// How `tp status` classifies a tree.
#[derive(Clone, Copy, Debug, PartialEq, Eq)]
pub enum TreeStatus {
    /// The current directory is in it.
    Here,
    /// Some process works in it.
    InUse,
    /// It has uncommitted changes.
    Dirty,
    /// It can be handed out.
    Available,
}

/// The first that holds of: current directory, in use, dirty.
pub fn tree_status(current: bool, in_use: bool, dirty: bool) -> (s: TreeStatus)
    ensures
        s == if current {
            TreeStatus::Here
        } else if in_use {
            TreeStatus::InUse
        } else if dirty {
            TreeStatus::Dirty
        } else {
            TreeStatus::Available
        },
{
    if current {
        TreeStatus::Here
    } else if in_use {
        TreeStatus::InUse
    } else if dirty {
        TreeStatus::Dirty
    } else {
        TreeStatus::Available
    }
}

/// The word shown for a status.
pub open spec fn label_of(s: TreeStatus) -> Seq<char> {
    match s {
        TreeStatus::Here => "here"@,
        TreeStatus::InUse => "in-use"@,
        TreeStatus::Dirty => "dirty"@,
        TreeStatus::Available => "available"@,
    }
}

/// The word shown for a status.
pub fn status_label(s: TreeStatus) -> (r: String)
    ensures
        r@ == label_of(s),
{
    match s {
        TreeStatus::Here => "here".to_string(),
        TreeStatus::InUse => "in-use".to_string(),
        TreeStatus::Dirty => "dirty".to_string(),
        TreeStatus::Available => "available".to_string(),
    }
}

/// The branch shown for a tree: its name, or `(detached)`.
pub fn branch_label(branch: Option<String>) -> (r: String)
    ensures
        r@ == match branch {
            Some(b) => b@,
            None => "(detached)"@,
        },
{
    match branch {
        Some(b) => b,
        None => "(detached)".to_string(),
    }
}

/// One row of `tp status`: `{name:>4}  {label:<11}  {branch:<20}  {place}`.
pub open spec fn status_row(name: Seq<char>, label: Seq<char>, branch: Seq<char>, place: Seq<char>) -> Seq<char> {
    pad_left(name, 4) + "  "@ + pad_right(label, 11) + "  "@ + pad_right(branch, 20) + "  "@ + place
}

/// The row of `tp status` for one tree.
pub fn status_line(name: &str, label: &str, branch: &str, place: &str) -> (r: String)
    ensures
        r@ == status_row(name@, label@, branch@, place@),
{
    let gap = chars_of("  ");
    let a = concat(&pad_left_chars(&chars_of(name), 4), &gap);
    let b = concat(&concat(&a, &pad_right_chars(&chars_of(label), 11)), &gap);
    let c = concat(&concat(&b, &pad_right_chars(&chars_of(branch), 20)), &gap);
    string_of(&concat(&c, &chars_of(place)))
}

/// `name (pid)` for a process.
pub open spec fn process_text(p: ProcessInfo) -> Seq<char> {
    p.name@ + " ("@ + decimal(p.pid as nat) + ")"@
}

/// The processes that use a tree, as `tp status` lists them below its row.
pub open spec fn process_row(procs: Seq<ProcessInfo>) -> Seq<char> {
    "        "@ + join(procs.map_values(|p: ProcessInfo| process_text(p)), ", "@)
}

/// The line listing the processes in a tree.
pub fn process_line(procs: &Vec<ProcessInfo>) -> (r: String)
    ensures
        r@ == process_row(procs@),
{
    let mut parts: Vec<Vec<char>> = Vec::new();
    let mut i: usize = 0;
    while i < procs.len()
        invariant
            i <= procs.len(),
            parts@.len() == i,
            views(parts@) == procs@.map_values(|p: ProcessInfo| process_text(p)).take(i as int),
        decreases procs.len() - i,
    {
        let p = &procs[i];
        let t = concat(
            &concat(&concat(&chars_of(p.name.as_str()), &chars_of(" (")), &decimal_chars(p.pid as u64)),
            &chars_of(")"),
        );
        let ghost before = views(parts@);
        parts.push(t);
        assert(views(parts@) =~= procs@.map_values(|p: ProcessInfo| process_text(p)).take(i + 1));
        i = i + 1;
    }
    assert(procs@.map_values(|p: ProcessInfo| process_text(p)).take(procs.len() as int)
        =~= procs@.map_values(|p: ProcessInfo| process_text(p)));
    let body = join_chars(&parts, &chars_of(", "));
    string_of(&concat(&chars_of("        "), &body))
}

} // verus!
