//! What shell completion offers: the known trees, and the branches that
//! begin with what has been typed.
use vstd::prelude::*;

use crate::git::texts;
use crate::text::{chars_of, concat, starts_with, string_of};

verus! {

/// The names in `names` that begin with `typed`, in their order.
pub open spec fn beginning_with(names: Seq<Seq<char>>, typed: Seq<char>) -> Seq<Seq<char>>
    decreases names.len(),
{
    if names.len() == 0 {
        names
    } else {
        let rest = beginning_with(names.drop_last(), typed);
        if typed.is_prefix_of(names.last()) {
            rest.push(names.last())
        } else {
            rest
        }
    }
}

/// The branches offered for completion: those that begin with the text typed
/// so far, in the order given.
pub fn branch_candidates(branches: &Vec<String>, typed: &str) -> (r: Vec<String>)
    ensures
        texts(r@) == beginning_with(texts(branches@), typed@),
{
    let p = chars_of(typed);
    let mut r: Vec<String> = Vec::new();
    let mut i: usize = 0;
    while i < branches.len()
        invariant
            i <= branches.len(),
            p@ == typed@,
            texts(r@) == beginning_with(texts(branches@).take(i as int), typed@),
        decreases branches.len() - i,
    {
        let ghost before = r@;
        let ghost seen = texts(branches@).take(i as int);
        let ghost next = texts(branches@).take(i + 1);
        assert(next.drop_last() =~= seen);
        assert(next.last() == branches@[i as int]@);
        let b = chars_of(branches[i].as_str());
        if starts_with(&b, &p) {
            r.push(branches[i].clone());
            assert(texts(r@) =~= texts(before).push(branches@[i as int]@));
        } else {
            assert(texts(r@) =~= texts(before));
        }
        i = i + 1;
    }
    assert(texts(branches@).take(branches.len() as int) =~= texts(branches@));
    r
}

/// The help shown beside a tree's path: `tree <name>`.
pub fn tree_help(name: &str) -> (h: String)
    ensures
        h@ == "tree "@ + name@,
{
    string_of(&concat(&chars_of("tree "), &chars_of(name)))
}

} // verus!
