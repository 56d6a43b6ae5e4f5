//! Unix paths as text, read as `std::path` reads them.
//!
//! A path is its characters. Its components are the root `/` when it begins
//! with one, `.` when it begins with a `.` piece, then the names between `/`
//! separators, with empty and `.` pieces left out. Comparison and prefix
//! tests go by components; the parent and the part after a prefix keep the
//! text as it is written, trimmed of separators and `.` pieces at their ends.
use vstd::prelude::*;

use crate::text::{concat, join, join_chars, same_chars, slice_chars, views};

verus! {

/// Index of the first `'/'` in `s`, or `s.len()` when there is none.
pub open spec fn slash_at(s: Seq<char>) -> nat
    decreases s.len(),
{
    if s.len() == 0 {
        0
    } else if s[0] == '/' {
        0
    } else {
        1 + slash_at(s.drop_first())
    }
}

/// The first separator lies within the text.
pub proof fn lemma_slash_at_le(s: Seq<char>)
    ensures
        slash_at(s) <= s.len(),
    decreases s.len(),
{
    if s.len() > 0 && s[0] != '/' {
        lemma_slash_at_le(s.drop_first());
    }
}

proof fn lemma_slash_at(s: Seq<char>, m: int)
    requires
        0 <= m <= s.len(),
        forall|k: int| 0 <= k < m ==> s[k] != '/',
        m < s.len() ==> s[m] == '/',
    ensures
        slash_at(s) == m,
    decreases m,
{
    if m > 0 {
        lemma_slash_at(s.drop_first(), m - 1);
    }
}

/// The texts between separators, empty ones included.
pub open spec fn pieces(s: Seq<char>) -> Seq<Seq<char>>
    decreases s.len(),
{
    if slash_at(s) >= s.len() {
        seq![s]
    } else {
        seq![s.take(slash_at(s) as int)] + pieces(s.skip(slash_at(s) as int + 1))
    }
}

/// The pieces that name something: neither empty nor `.`.
pub open spec fn names(ps: Seq<Seq<char>>) -> Seq<Seq<char>>
    decreases ps.len(),
{
    if ps.len() == 0 {
        seq![]
    } else {
        let rest = names(ps.drop_first());
        if ps[0].len() == 0 || ps[0] == "."@ {
            rest
        } else {
            seq![ps[0]] + rest
        }
    }
}

/// The components of a path below its root.
pub open spec fn segments(p: Seq<char>) -> Seq<Seq<char>> {
    names(pieces(p))
}

/// The path begins at the root.
pub open spec fn is_absolute(p: Seq<char>) -> bool {
    p.len() > 0 && p[0] == '/'
}

/// The path begins with a `.` component: it is `.` or begins with `./`.
pub open spec fn starts_at_cur_dir(p: Seq<char>) -> bool {
    p.len() > 0 && p[0] == '.' && (p.len() == 1 || p[1] == '/')
}

/// The length of the root or of a leading `.`, which come before the names.
pub open spec fn head_len(p: Seq<char>) -> nat {
    if is_absolute(p) || starts_at_cur_dir(p) {
        1
    } else {
        0
    }
}

/// The components of a path (`Path::components`): `/` for the root, `.` for
/// a leading current directory, then the names.
pub open spec fn components(p: Seq<char>) -> Seq<Seq<char>> {
    (if is_absolute(p) {
        seq!["/"@]
    } else {
        seq![]
    }) + (if starts_at_cur_dir(p) {
        seq!["."@]
    } else {
        seq![]
    }) + segments(p)
}

/// Two paths have the same components (`Path::eq`).
pub open spec fn same_path(a: Seq<char>, b: Seq<char>) -> bool {
    components(a) == components(b)
}

/// The components of `base` begin those of `p` (`Path::starts_with`).
pub open spec fn path_starts_with(p: Seq<char>, base: Seq<char>) -> bool {
    components(base).is_prefix_of(components(p))
}

/// A piece that names nothing: empty or `.`.
pub open spec fn is_junk(piece: Seq<char>) -> bool {
    piece.len() == 0 || piece == "."@
}

/// `s` without its leading separators and `.` pieces.
pub open spec fn trim_front(s: Seq<char>) -> Seq<char>
    decreases s.len(),
{
    if s.len() == 0 {
        s
    } else {
        let i = slash_at(s);
        if is_junk(s.take(i as int)) {
            if i < s.len() {
                trim_front(s.skip(i + 1 as int))
            } else {
                seq![]
            }
        } else {
            s
        }
    }
}

/// The text after the first name of `s` and the separator behind it.
pub open spec fn after_name(s: Seq<char>) -> Seq<char> {
    let t = trim_front(s);
    let i = slash_at(t);
    if i < t.len() {
        t.skip(i + 1 as int)
    } else {
        seq![]
    }
}

/// The text after the first `k` names of `s`.
pub open spec fn after_names(s: Seq<char>, k: nat) -> Seq<char>
    decreases k,
{
    if k == 0 {
        s
    } else {
        after_names(after_name(s), (k - 1) as nat)
    }
}

/// The index of the last `/` at or after `start`, or -1.
pub open spec fn last_slash(s: Seq<char>, start: int) -> int
    decreases s.len(),
{
    if s.len() == 0 || s.len() <= start {
        -1
    } else if s.last() == '/' {
        s.len() - 1
    } else {
        last_slash(s.drop_last(), start)
    }
}

/// The last separator found lies at or after `start`, inside the text.
pub proof fn lemma_last_slash(s: Seq<char>, start: int)
    requires
        0 <= start,
    ensures
        last_slash(s, start) == -1 || (start <= last_slash(s, start) < s.len() && s[last_slash(
            s,
            start,
        )] == '/'),
    decreases s.len(),
{
    if s.len() > start && s.last() != '/' {
        lemma_last_slash(s.drop_last(), start);
    }
}

/// What is left of `s` once its last piece after `start` is cut off,
/// together with the separator before it.
pub open spec fn cut_back(s: Seq<char>, start: int) -> Seq<char> {
    let j = last_slash(s, start);
    if j < 0 {
        s.take(start)
    } else {
        s.take(j)
    }
}

/// The last piece of `s` after `start`.
pub open spec fn last_piece(s: Seq<char>, start: int) -> Seq<char> {
    let j = last_slash(s, start);
    if j < 0 {
        s.skip(start)
    } else {
        s.skip(j + 1)
    }
}

/// `s` without its trailing separators and `.` pieces, not cutting into its
/// first `start` characters.
pub open spec fn trim_back(s: Seq<char>, start: nat) -> Seq<char>
    decreases s.len(),
{
    if s.len() <= start {
        s
    } else if is_junk(last_piece(s, start as int)) {
        proof {
            lemma_last_slash(s, start as int);
        }
        trim_back(cut_back(s, start as int), start)
    } else {
        s
    }
}

/// Trimming at the back never cuts into the first `start` characters.
pub proof fn lemma_trim_back_len(s: Seq<char>, start: nat)
    requires
        s.len() >= start,
    ensures
        trim_back(s, start).len() >= start,
    decreases s.len(),
{
    if s.len() > start && is_junk(last_piece(s, start as int)) {
        lemma_last_slash(s, start as int);
        lemma_trim_back_len(cut_back(s, start as int), start);
    }
}

/// `p` relative to `base`, when `base`'s components begin `p`'s
/// (`Path::strip_prefix`): the text after those components as `p` writes
/// it, without separators and `.` pieces at either end.
pub open spec fn path_strip_prefix(p: Seq<char>, base: Seq<char>) -> Option<Seq<char>> {
    if path_starts_with(p, base) {
        let k = components(base).len();
        if k == 0 {
            Some(trim_back(p, head_len(p)))
        } else {
            let rest = if head_len(p) == 1 {
                after_names(p.skip(1), (k - 1) as nat)
            } else {
                after_names(p, k)
            };
            Some(trim_back(trim_front(rest), 0))
        }
    } else {
        None
    }
}

/// `seg` appended to `base` (`PathBuf::push`): an absolute `seg` replaces
/// `base`; otherwise a separator is put between them unless `base` is empty
/// or already ends with one.
pub open spec fn path_join(base: Seq<char>, seg: Seq<char>) -> Seq<char> {
    if is_absolute(seg) {
        seg
    } else if base.len() == 0 || base.last() == '/' {
        base + seg
    } else {
        base + "/"@ + seg
    }
}

/// The last component, when it is a name other than `..` (`Path::file_name`).
pub open spec fn file_name(p: Seq<char>) -> Option<Seq<char>> {
    let segs = segments(p);
    if segs.len() > 0 && segs.last() != ".."@ {
        Some(segs.last())
    } else {
        None
    }
}

/// The path without its last component, as `p` writes it (`Path::parent`):
/// the last name and what trails it cut off, then the separators and `.`
/// pieces before it; `.` has the empty parent; the root and the empty path
/// have none.
pub open spec fn parent(p: Seq<char>) -> Option<Seq<char>> {
    if segments(p).len() > 0 {
        let t = trim_back(p, head_len(p));
        Some(trim_back(cut_back(t, head_len(p) as int), head_len(p)))
    } else if starts_at_cur_dir(p) {
        Some(seq![])
    } else {
        None
    }
}

fn slash() -> (s: Vec<char>)
    ensures
        s@ == "/"@,
{
    crate::text::chars_of("/")
}

/// The pieces of `s` between separators.
pub fn pieces_of(s: &Vec<char>) -> (r: Vec<Vec<char>>)
    ensures
        views(r@) == pieces(s@),
{
    let n = s.len();
    let mut r: Vec<Vec<char>> = Vec::new();
    let mut start: usize = 0;
    let mut i: usize = 0;
    assert(s@.skip(0) =~= s@);
    assert(views(r@) + pieces(s@) =~= pieces(s@));
    while i < n
        invariant
            n == s.len(),
            start <= i <= n,
            forall|k: int| start <= k < i ==> s@[k] != '/',
            pieces(s@) == views(r@) + pieces(s@.skip(start as int)),
        decreases n - i,
    {
        if s[i] == '/' {
            let ghost rest = s@.skip(start as int);
            proof {
                lemma_slash_at(rest, i - start);
                assert(rest.take(i - start) =~= s@.subrange(start as int, i as int));
                assert(rest.skip(i - start + 1) =~= s@.skip(i + 1));
            }
            let piece = slice_chars(s, start, i);
            let ghost before = views(r@);
            r.push(piece);
            proof {
                assert(views(r@) =~= before.push(piece@));
                assert(before + pieces(rest) =~= views(r@) + pieces(s@.skip(i + 1)));
            }
            start = i + 1;
        }
        i = i + 1;
    }
    let ghost rest = s@.skip(start as int);
    proof {
        lemma_slash_at(rest, n - start);
    }
    let last = slice_chars(s, start, n);
    assert(last@ =~= rest);
    let ghost before = views(r@);
    r.push(last);
    assert(views(r@) =~= before + pieces(rest));
    r
}

/// The components of a path.
pub fn segments_of(p: &Vec<char>) -> (r: Vec<Vec<char>>)
    ensures
        views(r@) == segments(p@),
{
    let ps = pieces_of(p);
    let ghost all = views(ps@);
    let dot = crate::text::chars_of(".");
    let mut r: Vec<Vec<char>> = Vec::new();
    let mut i: usize = 0;
    assert(all.skip(0) =~= all);
    assert(views(r@) + names(all) =~= names(all));
    while i < ps.len()
        invariant
            i <= ps.len(),
            all == views(ps@),
            dot@ == "."@,
            names(all) == views(r@) + names(all.skip(i as int)),
        decreases ps.len() - i,
    {
        let ghost tail = all.skip(i as int);
        assert(tail.drop_first() =~= all.skip(i + 1));
        assert(tail[0] == ps@[i as int]@);
        if ps[i].len() > 0 && !same_chars(&ps[i], &dot) {
            let piece = slice_chars(&ps[i], 0, ps[i].len());
            assert(piece@ =~= ps@[i as int]@);
            let ghost before = views(r@);
            r.push(piece);
            assert(views(r@) =~= before.push(tail[0]));
            assert(before + names(tail) =~= views(r@) + names(all.skip(i + 1)));
        }
        i = i + 1;
    }
    assert(names(all.skip(i as int)) =~= seq![]);
    assert(views(r@) + seq![] =~= views(r@));
    r
}

/// Whether the path begins at the root.
pub fn absolute(p: &Vec<char>) -> (b: bool)
    ensures
        b == is_absolute(p@),
{
    p.len() > 0 && p[0] == '/'
}

/// Whether the path begins with a `.` component.
pub fn cur_dir_first(p: &Vec<char>) -> (b: bool)
    ensures
        b == starts_at_cur_dir(p@),
{
    p.len() > 0 && p[0] == '.' && (p.len() == 1 || p[1] == '/')
}

fn head_length(p: &Vec<char>) -> (n: usize)
    ensures
        n == head_len(p@),
{
    if absolute(p) || cur_dir_first(p) {
        1
    } else {
        0
    }
}

/// The components of a path (`Path::components`).
pub fn components_of(p: &Vec<char>) -> (r: Vec<Vec<char>>)
    ensures
        views(r@) == components(p@),
{
    proof {
        reveal_strlit("/");
        reveal_strlit(".");
    }
    let segs = segments_of(p);
    let mut r: Vec<Vec<char>> = Vec::new();
    if absolute(p) {
        r.push(slash());
    }
    if cur_dir_first(p) {
        r.push(crate::text::chars_of("."));
    }
    let ghost head = views(r@);
    assert(head =~= (if is_absolute(p@) {
        seq!["/"@]
    } else {
        seq![]
    }) + (if starts_at_cur_dir(p@) {
        seq!["."@]
    } else {
        seq![]
    }));
    let mut i: usize = 0;
    while i < segs.len()
        invariant
            i <= segs.len(),
            views(r@) == head + views(segs@).take(i as int),
        decreases segs.len() - i,
    {
        let piece = slice_chars(&segs[i], 0, segs[i].len());
        assert(piece@ =~= segs@[i as int]@);
        let ghost before = views(r@);
        r.push(piece);
        assert(views(r@) =~= before.push(piece@));
        assert(views(segs@).take(i + 1) =~= views(segs@).take(i as int).push(piece@));
        assert(views(r@) =~= head + views(segs@).take(i + 1));
        i = i + 1;
    }
    assert(views(segs@).take(segs.len() as int) =~= views(segs@));
    r
}

fn is_prefix_seqs(a: &Vec<Vec<char>>, b: &Vec<Vec<char>>) -> (r: bool)
    ensures
        r == views(a@).is_prefix_of(views(b@)),
{
    if a.len() > b.len() {
        return false;
    }
    let mut i: usize = 0;
    while i < a.len()
        invariant
            a.len() <= b.len(),
            i <= a.len(),
            forall|k: int| 0 <= k < i ==> views(a@)[k] == views(b@)[k],
        decreases a.len() - i,
    {
        if !same_chars(&a[i], &b[i]) {
            assert(views(b@).subrange(0, a.len() as int)[i as int] != views(a@)[i as int]);
            return false;
        }
        i = i + 1;
    }
    assert(views(a@) =~= views(b@).subrange(0, a.len() as int));
    true
}

/// Component-wise `Path::starts_with`.
pub fn starts_with_path(p: &Vec<char>, base: &Vec<char>) -> (r: bool)
    ensures
        r == path_starts_with(p@, base@),
{
    is_prefix_seqs(&components_of(base), &components_of(p))
}

/// Component-wise `Path::eq`.
pub fn same_path_as(a: &Vec<char>, b: &Vec<char>) -> (r: bool)
    ensures
        r == same_path(a@, b@),
{
    let ca = components_of(a);
    let cb = components_of(b);
    assert(views(ca@).len() == ca@.len() && views(cb@).len() == cb@.len());
    if ca.len() != cb.len() {
        return false;
    }
    let r = is_prefix_seqs(&ca, &cb);
    assert(r ==> views(ca@) =~= views(cb@));
    r
}

/// The index of the first `/` in `s`, or its length.
fn slash_index(s: &Vec<char>) -> (i: usize)
    ensures
        i == slash_at(s@),
{
    let mut i: usize = 0;
    while i < s.len()
        invariant
            i <= s.len(),
            forall|k: int| 0 <= k < i ==> s@[k] != '/',
        decreases s.len() - i,
    {
        if s[i] == '/' {
            proof {
                lemma_slash_at(s@, i as int);
            }
            return i;
        }
        i = i + 1;
    }
    proof {
        lemma_slash_at(s@, i as int);
    }
    i
}

/// Whether the piece `s[from..to]` names nothing.
fn junk_piece(s: &Vec<char>, from: usize, to: usize) -> (b: bool)
    requires
        from <= to <= s.len(),
    ensures
        b == is_junk(s@.subrange(from as int, to as int)),
{
    proof {
        reveal_strlit(".");
    }
    if to == from {
        return true;
    }
    if to == from + 1 && s[from] == '.' {
        assert(s@.subrange(from as int, to as int) =~= "."@);
        return true;
    }
    if to == from + 1 {
        assert(s@.subrange(from as int, to as int)[0] != "."@[0]);
    } else {
        assert(s@.subrange(from as int, to as int).len() != "."@.len());
    }
    false
}

/// `s` without its leading separators and `.` pieces.
pub fn trim_front_of(s: &Vec<char>) -> (r: Vec<char>)
    ensures
        r@ == trim_front(s@),
    decreases s.len(),
{
    if s.len() == 0 {
        return slice_chars(s, 0, 0);
    }
    let i = slash_index(s);
    proof {
        lemma_slash_at_le(s@);
    }
    assert(s@.take(i as int) =~= s@.subrange(0, i as int));
    if junk_piece(s, 0, i) {
        if i < s.len() {
            let rest = slice_chars(s, i + 1, s.len());
            assert(rest@ =~= s@.skip(i + 1));
            trim_front_of(&rest)
        } else {
            let e = slice_chars(s, 0, 0);
            assert(e@ =~= seq![]);
            e
        }
    } else {
        let all = slice_chars(s, 0, s.len());
        assert(all@ =~= s@);
        all
    }
}

/// The text after the first `k` names of `s`.
pub fn after_names_of(s: &Vec<char>, k: usize) -> (r: Vec<char>)
    ensures
        r@ == after_names(s@, k as nat),
    decreases k,
{
    if k == 0 {
        let all = slice_chars(s, 0, s.len());
        assert(all@ =~= s@);
        return all;
    }
    let t = trim_front_of(s);
    let i = slash_index(&t);
    proof {
        lemma_slash_at_le(t@);
    }
    let next = if i < t.len() {
        slice_chars(&t, i + 1, t.len())
    } else {
        slice_chars(&t, 0, 0)
    };
    assert(next@ =~= after_name(s@));
    after_names_of(&next, k - 1)
}

/// The index of the last `/` at or after `start`.
fn last_slash_index(s: &Vec<char>, start: usize) -> (j: Option<usize>)
    ensures
        match j {
            Some(j) => last_slash(s@, start as int) == j,
            None => last_slash(s@, start as int) == -1,
        },
{
    let mut k = s.len();
    assert(s@.take(k as int) =~= s@);
    while k > start
        invariant
            k <= s.len(),
            last_slash(s@, start as int) == last_slash(s@.take(k as int), start as int),
        decreases k,
    {
        assert(s@.take(k as int).drop_last() =~= s@.take(k - 1));
        if s[k - 1] == '/' {
            return Some(k - 1);
        }
        k = k - 1;
    }
    None
}

/// `s` without its trailing separators and `.` pieces, not cutting into its
/// first `start` characters.
pub fn trim_back_of(s: &Vec<char>, start: usize) -> (r: Vec<char>)
    ensures
        r@ == trim_back(s@, start as nat),
    decreases s.len(),
{
    if s.len() <= start {
        return slice_chars(s, 0, s.len());
    }
    proof {
        lemma_last_slash(s@, start as int);
    }
    let (from, cut) = match last_slash_index(s, start) {
        Some(j) => (j + 1, j),
        None => (start, start),
    };
    assert(s@.skip(from as int) =~= s@.subrange(from as int, s.len() as int));
    if junk_piece(s, from, s.len()) {
        let shorter = slice_chars(s, 0, cut);
        assert(shorter@ =~= cut_back(s@, start as int));
        trim_back_of(&shorter, start)
    } else {
        slice_chars(s, 0, s.len())
    }
}

/// `p` relative to `base` (`Path::strip_prefix`).
pub fn strip_path_prefix(p: &Vec<char>, base: &Vec<char>) -> (r: Option<Vec<char>>)
    ensures
        match (r, path_strip_prefix(p@, base@)) {
            (Some(t), Some(u)) => t@ == u,
            (None, None) => true,
            _ => false,
        },
{
    if !starts_with_path(p, base) {
        return None;
    }
    let k = components_of(base).len();
    if k == 0 {
        return Some(trim_back_of(p, head_length(p)));
    }
    let rest = if head_length(p) == 1 {
        let tail = slice_chars(p, 1, p.len());
        assert(tail@ =~= p@.skip(1));
        after_names_of(&tail, k - 1)
    } else {
        after_names_of(p, k)
    };
    Some(trim_back_of(&trim_front_of(&rest), 0))
}

/// `PathBuf::push` of `seg` onto `base`.
pub fn join_path(base: &Vec<char>, seg: &Vec<char>) -> (r: Vec<char>)
    ensures
        r@ == path_join(base@, seg@),
{
    if absolute(seg) {
        slice_chars(seg, 0, seg.len())
    } else if base.len() == 0 || base[base.len() - 1] == '/' {
        concat(base, seg)
    } else {
        concat(&concat(base, &slash()), seg)
    }
}

/// `Path::file_name`.
pub fn file_name_of(p: &Vec<char>) -> (r: Option<Vec<char>>)
    ensures
        match (r, file_name(p@)) {
            (Some(t), Some(u)) => t@ == u,
            (None, None) => true,
            _ => false,
        },
{
    let segs = segments_of(p);
    if segs.len() == 0 {
        return None;
    }
    let last = slice_chars(&segs[segs.len() - 1], 0, segs[segs.len() - 1].len());
    assert(last@ =~= views(segs@).last());
    if same_chars(&last, &crate::text::chars_of("..")) {
        None
    } else {
        Some(last)
    }
}

/// `Path::parent`.
pub fn parent_of(p: &Vec<char>) -> (r: Option<Vec<char>>)
    ensures
        match (r, parent(p@)) {
            (Some(t), Some(u)) => t@ == u,
            (None, None) => true,
            _ => false,
        },
{
    let segs = segments_of(p);
    let h = head_length(p);
    if segs.len() > 0 {
        let t = trim_back_of(p, h);
        proof {
            lemma_last_slash(t@, h as int);
        }
        proof {
            lemma_trim_back_len(p@, h as nat);
        }
        let cut = match last_slash_index(&t, h) {
            Some(j) => j,
            None => h,
        };
        let shorter = slice_chars(&t, 0, cut);
        assert(shorter@ =~= cut_back(t@, h as int));
        Some(trim_back_of(&shorter, h))
    } else if cur_dir_first(p) {
        Some(slice_chars(p, 0, 0))
    } else {
        None
    }
}

} // verus!
