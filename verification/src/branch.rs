//! Choosing the branch a tree is handed out on.
use vstd::prelude::*;

use crate::git::{branch_exists, branch_exists_step, replies_view, texts, GitReply, GitStep};
use crate::text::{chars_of, contains_chars, string_of, trim, trim_str};

verus! {

/// The first entry of the branch menu, which asks for a new branch.
pub const CREATE_NEW_LABEL: &'static str = "[ Create new branch ]";

/// The menu offered: the entry for a new branch, then the branches.
pub fn branch_menu(branches: &Vec<String>) -> (items: Vec<String>)
    ensures
        texts(items@) == seq![CREATE_NEW_LABEL@] + texts(branches@),
{
    let mut items: Vec<String> = Vec::new();
    items.push(CREATE_NEW_LABEL.to_string());
    let mut i: usize = 0;
    while i < branches.len()
        invariant
            i <= branches.len(),
            items@.len() == i + 1,
            texts(items@) == seq![CREATE_NEW_LABEL@] + texts(branches@).take(i as int),
        decreases branches.len() - i,
    {
        let b = branches[i].clone();
        let ghost before = items@;
        items.push(b);
        assert forall|k: int| 0 <= k < i + 2 implies #[trigger] texts(items@)[k] == (seq![
            CREATE_NEW_LABEL@,
        ] + texts(branches@).take(i + 1))[k] by {
            if k < i + 1 {
                assert(texts(before)[k] == (seq![CREATE_NEW_LABEL@] + texts(branches@).take(
                    i as int,
                ))[k]);
            }
        }
        assert(texts(items@) =~= seq![CREATE_NEW_LABEL@] + texts(branches@).take(i + 1));
        i = i + 1;
    }
    assert(texts(branches@).take(branches.len() as int) =~= texts(branches@));
    items
}

/// What a choice from the menu means: `None` for a new branch (entry 0),
/// else the branch at that place.
pub fn select_branch(branches: &Vec<String>, selection: usize) -> (r: Option<String>)
    requires
        selection <= branches.len(),
    ensures
        selection == 0 ==> r is None,
        selection > 0 ==> (r matches Some(b) && b@ == branches@[selection - 1]@),
{
    if selection == 0 {
        None
    } else {
        Some(branches[selection - 1].clone())
    }
}

/// Why a new branch name was refused.
pub enum NewBranchError {
    /// The name is empty once trimmed.
    Empty,
    /// A branch of that name exists.
    Exists(String),
}

/// A typed name for a new branch, trimmed; refused when empty or when a
/// branch of that name exists.
pub fn new_branch_name(input: &str, existing: &Vec<String>) -> (r: Result<String, NewBranchError>)
    ensures
        trim(input@).len() == 0 ==> r matches Err(NewBranchError::Empty),
        trim(input@).len() > 0 && texts(existing@).contains(trim(input@)) ==> (r matches Err(
            NewBranchError::Exists(n),
        ) && n@ == trim(input@)),
        trim(input@).len() > 0 && !texts(existing@).contains(trim(input@)) ==> (r matches Ok(n)
            && n@ == trim(input@)),
{
    let name = trim_str(input);
    if name.len() == 0 {
        return Err(NewBranchError::Empty);
    }
    let known = crate::git::chars_of_all(existing);
    if contains_chars(&known, &name) {
        Err(NewBranchError::Exists(string_of(&name)))
    } else {
        Ok(string_of(&name))
    }
}

/// Whether a branch named on the command line exists locally or on
/// `origin`; a branch that does not is created.
pub fn validate_branch(repo_root: &str, branch: &str, replies: &Vec<GitReply>) -> (s: GitStep<bool>)
    ensures
        s@ == branch_exists_step(repo_root@, branch@, replies_view(replies@)),
{
    branch_exists(repo_root, branch, replies)
}

} // verus!
