//! The pool's record of its trees.
//!
//! Paths are compared the way the pool compares them on disk: by their
//! canonical forms, which the caller resolves (the file system decides them)
//! and hands in, one per entry.
use vstd::prelude::*;

use crate::paths::{same_path, same_path_as};
use crate::text::{chars_of, decimal, decimal_chars, lemma_parse_decimal, parse_u32, parse_u32_chars, string_of};

verus! {

/// A point in time: seconds since the Unix epoch and the nanoseconds after.
#[derive(Clone, Copy, Debug, PartialEq, Eq)]
pub struct Timestamp {
    pub secs: i64,
    pub nanos: u32,
}

/// One tree of the pool.
pub struct TreeEntry {
    /// Its numeric name: "1", "2", ...
    pub name: String,
    /// Where its clone lives.
    pub path: String,
    pub created_at: Timestamp,
}

/// All trees of a pool.
pub struct State {
    pub trees: Vec<TreeEntry>,
}

impl Default for State {
    fn default() -> (s: Self)
        ensures
            s.trees@.len() == 0,
    {
        State { trees: Vec::new() }
    }
}

/// The number a tree name stands for; a name that is not a number counts as 0.
pub open spec fn name_value(name: Seq<char>) -> nat {
    match parse_u32(name) {
        Some(v) => v as nat,
        None => 0,
    }
}

/// The largest number among the names of the entries, or 0.
pub open spec fn max_number(es: Seq<TreeEntry>) -> nat
    decreases es.len(),
{
    if es.len() == 0 {
        0
    } else {
        let m = max_number(es.drop_last());
        let v = name_value(es.last().name@);
        if v > m {
            v
        } else {
            m
        }
    }
}

/// The entries whose flag in `keep` is set, in order.
pub open spec fn kept<A>(es: Seq<A>, keep: Seq<bool>) -> Seq<A>
    decreases es.len(),
{
    if es.len() == 0 {
        seq![]
    } else {
        let rest = kept(es.drop_first(), keep.drop_first());
        if keep.len() > 0 && keep[0] {
            seq![es[0]] + rest
        } else {
            rest
        }
    }
}

/// Which canonical paths do not name the same place as `target`.
pub open spec fn unmatched(canonical: Seq<Seq<char>>, target: Seq<char>) -> Seq<bool> {
    Seq::new(canonical.len(), |i: int| !same_path(canonical[i], target))
}

/// `i` is the first index whose canonical path names `target`.
pub open spec fn is_first_match(canonical: Seq<Seq<char>>, target: Seq<char>, i: int) -> bool {
    &&& 0 <= i < canonical.len()
    &&& same_path(canonical[i], target)
    &&& forall|j: int| 0 <= j < i ==> !same_path(#[trigger] canonical[j], target)
}

/// No canonical path names `target`.
pub open spec fn no_match(canonical: Seq<Seq<char>>, target: Seq<char>) -> bool {
    forall|j: int| 0 <= j < canonical.len() ==> !same_path(#[trigger] canonical[j], target)
}

/// The texts of a vector of strings.
pub open spec fn strings_view(v: Seq<String>) -> Seq<Seq<char>> {
    v.map_values(|s: String| s@)
}

proof fn lemma_kept_step<A>(es: Seq<A>, keep: Seq<bool>, i: int)
    requires
        0 <= i < es.len(),
        keep.len() == es.len(),
    ensures
        kept(es.skip(i), keep.skip(i)) == (if keep[i] {
            seq![es[i]]
        } else {
            seq![]
        }) + kept(es.skip(i + 1), keep.skip(i + 1)),
{
    assert(es.skip(i).drop_first() =~= es.skip(i + 1));
    assert(keep.skip(i).drop_first() =~= keep.skip(i + 1));
    if !keep[i] {
        assert(seq![] + kept(es.skip(i + 1), keep.skip(i + 1)) =~= kept(es.skip(i + 1), keep.skip(i + 1)));
    }
}

impl State {
    /// The largest number among the tree names, 0 when there is none.
    fn largest_number(&self) -> (m: u32)
        ensures
            m == max_number(self.trees@),
    {
        let mut max: u32 = 0;
        let mut i: usize = 0;
        while i < self.trees.len()
            invariant
                i <= self.trees.len(),
                max == max_number(self.trees@.take(i as int)),
            decreases self.trees.len() - i,
        {
            assert(self.trees@.take(i + 1).drop_last() =~= self.trees@.take(i as int));
            match parse_u32_chars(&chars_of(self.trees[i].name.as_str())) {
                Some(v) => {
                    if v > max {
                        max = v;
                    }
                },
                None => {},
            }
            i = i + 1;
        }
        assert(self.trees@.take(i as int) =~= self.trees@);
        max
    }

    /// The next tree name: one more than the largest numeric name, "1" for an
    /// empty pool.
    pub fn next_name(&self) -> (r: String)
        requires
            max_number(self.trees@) < u32::MAX,
        ensures
            r@ == decimal(max_number(self.trees@) + 1),
    {
        let max = self.largest_number();
        string_of(&decimal_chars((max + 1) as u64))
    }

    /// The next tree name, or `None` when the largest name is `u32::MAX`
    /// and one more would overflow.
    pub fn next_name_checked(&self) -> (r: Option<String>)
        ensures
            max_number(self.trees@) < u32::MAX ==> (r matches Some(n) && n@ == decimal(
                max_number(self.trees@) + 1,
            )),
            max_number(self.trees@) >= u32::MAX ==> r is None,
    {
        if self.largest_number() == u32::MAX {
            None
        } else {
            Some(self.next_name())
        }
    }

    /// The first entry whose canonical path names the same place as the
    /// canonical `target`; `canonical[i]` is the canonical form of entry `i`'s
    /// path.
    pub fn find_by_path(&self, canonical: &Vec<String>, target: &str) -> (r: Option<&TreeEntry>)
        requires
            canonical.len() == self.trees.len(),
        ensures
            r is None <==> no_match(strings_view(canonical@), target@),
            r matches Some(e) ==> exists|i: int|
                is_first_match(strings_view(canonical@), target@, i) && *e == self.trees@[i],
    {
        let t = chars_of(target);
        let mut i: usize = 0;
        while i < self.trees.len()
            invariant
                i <= self.trees.len(),
                canonical.len() == self.trees.len(),
                t@ == target@,
                forall|j: int| 0 <= j < i ==> !same_path(#[trigger] strings_view(canonical@)[j], target@),
            decreases self.trees.len() - i,
        {
            if same_path_as(&chars_of(canonical[i].as_str()), &t) {
                assert(is_first_match(strings_view(canonical@), target@, i as int));
                return Some(&self.trees[i]);
            }
            i = i + 1;
        }
        None
    }

    fn retain_flagged(&mut self, keep: &Vec<bool>)
        requires
            keep.len() == old(self).trees.len(),
        ensures
            final(self).trees@ == kept(old(self).trees@, keep@),
    {
        let ghost all = self.trees@;
        let mut rest: Vec<TreeEntry> = Vec::new();
        std::mem::swap(&mut rest, &mut self.trees);
        let mut i: usize = 0;
        assert(all.skip(0) =~= all);
        assert(keep@.skip(0) =~= keep@);
        assert(self.trees@ + kept(all, keep@) =~= kept(all, keep@));
        while rest.len() > 0
            invariant
                i <= all.len(),
                keep.len() == all.len(),
                rest@ == all.skip(i as int),
                kept(all, keep@) == self.trees@ + kept(all.skip(i as int), keep@.skip(i as int)),
            decreases rest.len(),
        {
            proof {
                lemma_kept_step(all, keep@, i as int);
            }
            let e = rest.remove(0);
            assert(rest@ =~= all.skip(i + 1));
            if keep[i] {
                let ghost before = self.trees@;
                self.trees.push(e);
                assert(before + (seq![all[i as int]] + kept(all.skip(i + 1), keep@.skip(i + 1)))
                    =~= self.trees@ + kept(all.skip(i + 1), keep@.skip(i + 1)));
            } else {
                assert(seq![] + kept(all.skip(i + 1), keep@.skip(i + 1)) =~= kept(all.skip(i + 1), keep@.skip(i + 1)));
            }
            i = i + 1;
        }
        assert(kept(all.skip(i as int), keep@.skip(i as int)) =~= seq![]);
        assert(self.trees@ + seq![] =~= self.trees@);
    }

    /// Drop every entry whose canonical path names the same place as the
    /// canonical `target`; `canonical[i]` is the canonical form of entry `i`'s
    /// path.
    pub fn remove_by_path(&mut self, canonical: &Vec<String>, target: &str)
        requires
            canonical.len() == old(self).trees.len(),
        ensures
            final(self).trees@ == kept(old(self).trees@, unmatched(strings_view(canonical@), target@)),
    {
        let t = chars_of(target);
        let mut keep: Vec<bool> = Vec::new();
        let mut i: usize = 0;
        while i < canonical.len()
            invariant
                i <= canonical.len(),
                t@ == target@,
                keep@ == unmatched(strings_view(canonical@), target@).take(i as int),
            decreases canonical.len() - i,
        {
            let m = same_path_as(&chars_of(canonical[i].as_str()), &t);
            keep.push(!m);
            assert(keep@ =~= unmatched(strings_view(canonical@), target@).take(i + 1));
            i = i + 1;
        }
        assert(keep@ =~= unmatched(strings_view(canonical@), target@));
        self.retain_flagged(&keep);
    }

    /// Drop the entries whose paths no longer exist (`exists[i]` says whether
    /// entry `i`'s path does); the result tells whether any was dropped.
    pub fn heal(&mut self, exists: &Vec<bool>) -> (changed: bool)
        requires
            exists.len() == old(self).trees.len(),
        ensures
            final(self).trees@ == kept(old(self).trees@, exists@),
            changed == (final(self).trees@.len() != old(self).trees@.len()),
    {
        let before = self.trees.len();
        self.retain_flagged(exists);
        self.trees.len() != before
    }

    /// Record a new tree, created at `created_at`.
    pub fn add(&mut self, name: String, path: String, created_at: Timestamp)
        ensures
            final(self).trees@ == old(self).trees@.push(TreeEntry { name, path, created_at }),
    {
        self.trees.push(TreeEntry { name, path, created_at });
    }
}

proof fn lemma_max_number_bounds(es: Seq<TreeEntry>, i: int)
    requires
        0 <= i < es.len(),
    ensures
        name_value(es[i].name@) <= max_number(es),
    decreases es.len(),
{
    if i < es.len() - 1 {
        lemma_max_number_bounds(es.drop_last(), i);
    }
}

/// The name `next_name` gives is the name of no tree in the pool.
pub proof fn law_next_name_is_fresh(es: Seq<TreeEntry>, i: int)
    requires
        max_number(es) < u32::MAX,
        0 <= i < es.len(),
    ensures
        es[i].name@ != decimal(max_number(es) + 1),
{
    let m = max_number(es);
    lemma_max_number_bounds(es, i);
    lemma_parse_decimal((m + 1) as u32);
}

/// Each entry `kept` keeps was flagged, and they keep their order.
pub proof fn lemma_kept_flagged<A>(es: Seq<A>, keep: Seq<bool>)
    requires
        keep.len() == es.len(),
    ensures
        kept(es, keep).len() <= es.len(),
        forall|x: A| kept(es, keep).contains(x) ==> exists|i: int| 0 <= i < es.len() && keep[i] && es[i] == x,
    decreases es.len(),
{
    if es.len() > 0 {
        lemma_kept_flagged(es.drop_first(), keep.drop_first());
        let rest = kept(es.drop_first(), keep.drop_first());
        assert forall|x: A| kept(es, keep).contains(x) implies exists|i: int| 0 <= i < es.len() && keep[i] && es[i] == x by {
            if rest.contains(x) {
                let j = choose|j: int| 0 <= j < es.drop_first().len() && keep.drop_first()[j] && es.drop_first()[j] == x;
                assert(keep[j + 1] && es[j + 1] == x);
            } else {
                let k = choose|k: int| 0 <= k < kept(es, keep).len() && kept(es, keep)[k] == x;
                assert(keep[0]);
                if k > 0 {
                    assert(rest[k - 1] == x);
                }
            }
        }
    }
}

/// After `remove_by_path`, no entry left names the removed place: the
/// canonical paths of the entries that stay match no longer.
pub proof fn law_removed_path_is_gone(canonical: Seq<Seq<char>>, target: Seq<char>)
    ensures
        no_match(kept(canonical, unmatched(canonical, target)), target),
{
    let keep = unmatched(canonical, target);
    lemma_kept_flagged(canonical, keep);
    assert forall|j: int| 0 <= j < kept(canonical, keep).len() implies !same_path(
        #[trigger] kept(canonical, keep)[j],
        target,
    ) by {
        let x = kept(canonical, keep)[j];
        assert(kept(canonical, keep).contains(x));
    }
}

/// After a tree is added, looking up any path that names the same place as
/// its canonical path finds an entry.
pub proof fn law_added_tree_is_found(canonical: Seq<Seq<char>>, added: Seq<char>, target: Seq<char>)
    requires
        same_path(added, target),
    ensures
        !no_match(canonical.push(added), target),
{
    assert(canonical.push(added)[canonical.len() as int] == added);
}


/// `kept` keeps something exactly when some entry is flagged.
pub proof fn lemma_kept_nonempty<A>(es: Seq<A>, keep: Seq<bool>)
    requires
        keep.len() == es.len(),
    ensures
        kept(es, keep).len() > 0 <==> exists|i: int| 0 <= i < es.len() && #[trigger] keep[i],
    decreases es.len(),
{
    if es.len() > 0 {
        lemma_kept_nonempty(es.drop_first(), keep.drop_first());
        if exists|i: int| 0 <= i < es.len() && #[trigger] keep[i] {
            let i = choose|i: int| 0 <= i < es.len() && #[trigger] keep[i];
            if i > 0 {
                assert(keep.drop_first()[i - 1]);
            }
        }
        if exists|i: int| 0 <= i < es.drop_first().len() && #[trigger] keep.drop_first()[i] {
            let i = choose|i: int| 0 <= i < es.drop_first().len() && #[trigger] keep.drop_first()[i];
            assert(keep[i + 1]);
        }
    }
}


/// Keeping every entry keeps the list as it is.
pub proof fn lemma_kept_all<A>(es: Seq<A>, keep: Seq<bool>)
    requires
        keep.len() == es.len(),
        forall|i: int| 0 <= i < keep.len() ==> #[trigger] keep[i],
    ensures
        kept(es, keep) == es,
    decreases es.len(),
{
    if es.len() > 0 {
        assert forall|i: int| 0 <= i < keep.drop_first().len() implies #[trigger] keep.drop_first()[i] by {
            assert(keep[i + 1]);
        }
        lemma_kept_all(es.drop_first(), keep.drop_first());
        assert(keep[0]);
        assert(seq![es[0]] + es.drop_first() =~= es);
    }
}

/// Healing is safe to repeat: once the missing trees are dropped, every
/// entry left exists, and a second healing keeps them all and reports no
/// change.
pub proof fn law_heal_is_idempotent(es: Seq<TreeEntry>, exists: Seq<bool>, again: Seq<bool>)
    requires
        exists.len() == es.len(),
        again.len() == kept(es, exists).len(),
        forall|i: int| 0 <= i < again.len() ==> #[trigger] again[i],
    ensures
        kept(kept(es, exists), again) == kept(es, exists),
{
    lemma_kept_all(kept(es, exists), again);
}

} // verus!
