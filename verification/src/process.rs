//! Which processes work inside a tree.
use vstd::prelude::*;

use crate::paths::{path_starts_with, starts_with_path};
use crate::state::{kept, lemma_kept_nonempty};
use crate::text::chars_of;

verus! {

/// A running process.
pub struct ProcessInfo {
    pub pid: u32,
    pub name: String,
}

/// A process and its working directory, canonicalized; `None` when it has
/// none or it could not be resolved.
pub struct ProcessSighting {
    pub info: ProcessInfo,
    pub cwd: Option<String>,
}

/// The process works at or below `dir`, component by component.
pub open spec fn works_in(s: ProcessSighting, dir: Seq<char>) -> bool {
    s.cwd matches Some(c) && path_starts_with(c@, dir)
}

/// For each sighting, whether it works in `dir`.
pub open spec fn inside_flags(sightings: Seq<ProcessSighting>, dir: Seq<char>) -> Seq<bool> {
    Seq::new(sightings.len(), |i: int| works_in(sightings[i], dir))
}

/// The processes of the sightings.
pub open spec fn infos(sightings: Seq<ProcessSighting>) -> Seq<ProcessInfo> {
    sightings.map_values(|s: ProcessSighting| s.info)
}

/// The processes in `dir` (its canonical form, `None` when it could not be
/// resolved, which leaves nothing to find), in the order they were sighted.
pub open spec fn processes_in(dir: Option<Seq<char>>, sightings: Seq<ProcessSighting>) -> Seq<ProcessInfo> {
    match dir {
        None => seq![],
        Some(d) => kept(infos(sightings), inside_flags(sightings, d)),
    }
}

/// All processes whose working directory lies inside `dir`.
pub fn processes_in_dir(dir: Option<String>, sightings: Vec<ProcessSighting>) -> (r: Vec<ProcessInfo>)
    ensures
        r@ == processes_in(
            match dir {
                Some(d) => Some(d@),
                None => None,
            },
            sightings@,
        ),
{
    let mut r: Vec<ProcessInfo> = Vec::new();
    let d = match dir {
        None => return r,
        Some(d) => chars_of(d.as_str()),
    };
    let ghost all = sightings@;
    let ghost es = infos(all);
    let ghost keep = inside_flags(all, d@);
    assert(all.len() == sightings.len());
    let mut rest = sightings;
    let mut i: usize = 0;
    assert(es.skip(0) =~= es);
    assert(keep.skip(0) =~= keep);
    assert(r@ + kept(es, keep) =~= kept(es, keep));
    while rest.len() > 0
        invariant
            i <= all.len(),
            es == infos(all),
            keep == inside_flags(all, d@),
            rest@ == all.skip(i as int),
            rest@.len() == all.len() - i,
            all.len() <= usize::MAX,
            kept(es, keep) == r@ + kept(es.skip(i as int), keep.skip(i as int)),
        decreases rest.len(),
    {
        assert(es.skip(i as int).drop_first() =~= es.skip(i + 1));
        assert(keep.skip(i as int).drop_first() =~= keep.skip(i + 1));
        let s = rest.remove(0);
        assert(rest@ =~= all.skip(i + 1));
        let inside = match &s.cwd {
            Some(c) => starts_with_path(&chars_of(c.as_str()), &d),
            None => false,
        };
        assert(inside == keep[i as int]);
        if inside {
            let ghost before = r@;
            r.push(s.info);
            assert(before + kept(es.skip(i as int), keep.skip(i as int)) =~= r@ + kept(
                es.skip(i + 1),
                keep.skip(i + 1),
            ));
        }
        i = i + 1;
    }
    assert(kept(es.skip(i as int), keep.skip(i as int)) =~= seq![]);
    assert(r@ + seq![] =~= r@);
    r
}

/// Whether any process works inside `dir`.
pub fn is_in_use(dir: Option<String>, sightings: Vec<ProcessSighting>) -> (b: bool)
    ensures
        b == match dir {
            None => false,
            Some(d) => exists|i: int| 0 <= i < sightings@.len() && works_in(#[trigger] sightings@[i], d@),
        },
{
    let ghost dv = match &dir {
        Some(d) => Some(d@),
        None => None,
    };
    let ghost all = sightings@;
    let r = processes_in_dir(dir, sightings);
    proof {
        if let Some(d) = dv {
            lemma_kept_nonempty(infos(all), inside_flags(all, d));
            if exists|i: int| 0 <= i < all.len() && works_in(#[trigger] all[i], d) {
                let i = choose|i: int| 0 <= i < all.len() && works_in(#[trigger] all[i], d);
                assert(inside_flags(all, d)[i]);
            }
        }
    }
    r.len() > 0
}

} // verus!
