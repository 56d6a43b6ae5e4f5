//! Keeping a pool that lies inside a repository out of that repository:
//! its entry in the repository's `.gitignore`.
use vstd::prelude::*;

use crate::paths::{file_name, file_name_of, join_path, parent, parent_of, path_join, path_strip_prefix, strip_path_prefix};
use crate::text::{chars_of, concat, line_end, lines, lines_of, same_chars, string_of, strip_cr, trim, trim_chars, trim_end, trim_start, is_ws};

verus! {

/// `s` with each `\` turned into `/`.
pub open spec fn forward_slashes(s: Seq<char>) -> Seq<char> {
    s.map_values(|c: char| if c == '\\' { '/' } else { c })
}

/// The `.gitignore` line for a pool: its path relative to the repository
/// root, with forward slashes and a leading `/`; `None` when the pool lies
/// outside the repository. Both paths are canonical.
pub open spec fn entry_for(canonical_pool: Seq<char>, canonical_root: Seq<char>) -> Option<Seq<char>> {
    match path_strip_prefix(canonical_pool, canonical_root) {
        Some(rel) => Some("/"@ + forward_slashes(rel)),
        None => None,
    }
}

/// Some line of `contents`, trimmed, is `entry`.
pub open spec fn listed(contents: Seq<char>, entry: Seq<char>) -> bool {
    exists|i: int| 0 <= i < lines(contents).len() && trim(#[trigger] lines(contents)[i]) == entry
}

/// `contents` (empty when there is no file) with `entry` added as a line of
/// its own, after a line break if the text does not end with one.
pub open spec fn appended(contents: Option<Seq<char>>, entry: Seq<char>) -> Seq<char> {
    let c = match contents {
        Some(c) => c,
        None => seq![],
    };
    let base = if c.len() > 0 && c.last() != '\n' {
        c.push('\n')
    } else {
        c
    };
    base + entry + seq!['\n']
}

/// The `.gitignore` line for the pool at `canonical_pool` in the repository
/// at `canonical_root`, if the pool lies inside it.
pub fn ignore_entry(canonical_pool: &str, canonical_root: &str) -> (r: Option<String>)
    ensures
        match (r, entry_for(canonical_pool@, canonical_root@)) {
            (Some(e), Some(f)) => e@ == f,
            (None, None) => true,
            _ => false,
        },
{
    match strip_path_prefix(&chars_of(canonical_pool), &chars_of(canonical_root)) {
        None => None,
        Some(rel) => {
            let mut out: Vec<char> = Vec::new();
            out.push('/');
            proof {
                reveal_strlit("/");
                assert(out@ =~= "/"@ + forward_slashes(rel@).take(0));
            }
            let mut i: usize = 0;
            while i < rel.len()
                invariant
                    i <= rel.len(),
                    out@ == "/"@ + forward_slashes(rel@).take(i as int),
                decreases rel.len() - i,
            {
                let c = if rel[i] == '\\' {
                    '/'
                } else {
                    rel[i]
                };
                out.push(c);
                assert(out@ =~= "/"@ + forward_slashes(rel@).take(i + 1));
                i = i + 1;
            }
            assert(forward_slashes(rel@).take(rel.len() as int) =~= forward_slashes(rel@));
            Some(string_of(&out))
        },
    }
}

/// The new text of `.gitignore` that lists `entry`, given its current text
/// (`None` when there is no file); `None` when it lists the entry already and
/// nothing is to be written.
pub fn ensure_ignored(entry: &str, contents: Option<String>) -> (r: Option<String>)
    ensures
        match contents {
            Some(c) => if listed(c@, entry@) {
                r is None
            } else {
                r matches Some(t) && t@ == appended(Some(c@), entry@)
            },
            None => r matches Some(t) && t@ == appended(None, entry@),
        },
{
    let e = chars_of(entry);
    let ghost given = contents;
    let c = match contents {
        Some(text) => {
            assert(given == Some(text));
            let c = chars_of(text.as_str());
            let ls = lines_of(&c);
            let mut i: usize = 0;
            while i < ls.len()
                invariant
                    i <= ls.len(),
                    crate::text::views(ls@) == lines(c@),
                    c@ == text@,
                    given == Some(text),
                    contents == given,
                    e@ == entry@,
                    forall|k: int| 0 <= k < i ==> trim(#[trigger] lines(c@)[k]) != entry@,
                decreases ls.len() - i,
            {
                if same_chars(&trim_chars(&ls[i]), &e) {
                    assert(trim(lines(text@)[i as int]) == entry@);
                    return None;
                }
                i = i + 1;
            }
            c
        },
        None => Vec::new(),
    };
    let mut base = c;
    if base.len() > 0 && base[base.len() - 1] != '\n' {
        base.push('\n');
    }
    let mut t = concat(&base, &e);
    t.push('\n');
    Some(string_of(&t))
}

proof fn lemma_line_end_within(s: Seq<char>)
    requires
        exists|k: int| 0 <= k < s.len() && s[k] == '\n',
    ensures
        line_end(s) < s.len(),
        s[line_end(s) as int] == '\n',
        forall|k: int| 0 <= k < line_end(s) ==> s[k] != '\n',
    decreases s.len(),
{
    if s[0] != '\n' {
        let k = choose|k: int| 0 <= k < s.len() && s[k] == '\n';
        assert(s.drop_first()[k - 1] == '\n');
        lemma_line_end_within(s.drop_first());
        assert forall|j: int| 0 <= j < line_end(s) implies s[j] != '\n' by {
            if j > 0 {
                assert(s[j] == s.drop_first()[j - 1]);
            }
        }
    }
}

proof fn lemma_line_end_none(s: Seq<char>)
    requires
        forall|k: int| 0 <= k < s.len() ==> s[k] != '\n',
    ensures
        line_end(s) == s.len(),
    decreases s.len(),
{
    if s.len() > 0 {
        lemma_line_end_none(s.drop_first());
    }
}

proof fn lemma_line_end_append(a: Seq<char>, b: Seq<char>)
    requires
        exists|k: int| 0 <= k < a.len() && a[k] == '\n',
    ensures
        line_end(a + b) == line_end(a),
    decreases a.len(),
{
    if a[0] != '\n' {
        let k = choose|k: int| 0 <= k < a.len() && a[k] == '\n';
        assert(a.drop_first()[k - 1] == '\n');
        lemma_line_end_append(a.drop_first(), b);
        assert((a + b).drop_first() =~= a.drop_first() + b);
    }
}

/// Splitting text that ends with a line break, followed by more text,
/// gives the lines of each part in turn.
pub proof fn lemma_lines_append(a: Seq<char>, b: Seq<char>)
    requires
        a.len() == 0 || a.last() == '\n',
    ensures
        lines(a + b) == lines(a) + lines(b),
    decreases a.len(),
{
    if a.len() == 0 {
        assert(a + b =~= b);
        assert(lines(a) =~= seq![]);
        assert(seq![] + lines(b) =~= lines(b));
    } else {
        assert(a[a.len() - 1] == '\n');
        lemma_line_end_within(a);
        lemma_line_end_append(a, b);
        let k = line_end(a) as int;
        let ab = a + b;
        assert(ab.take(k) =~= a.take(k));
        assert(ab.skip(k + 1) =~= a.skip(k + 1) + b);
        let rest = a.skip(k + 1);
        assert(rest.len() == 0 || rest.last() == '\n');
        lemma_lines_append(rest, b);
        assert(lines(ab) =~= lines(a) + lines(b));
    }
}

proof fn lemma_trim_fixed(e: Seq<char>)
    requires
        trim(e) == e,
        e.len() > 0,
    ensures
        !is_ws(e.last()),
{
    if is_ws(e.last()) {
        lemma_trim_shorter(e);
    }
}

proof fn lemma_trim_start_len(s: Seq<char>)
    ensures
        trim_start(s).len() <= s.len(),
    decreases s.len(),
{
    if s.len() > 0 && is_ws(s[0]) {
        lemma_trim_start_len(s.drop_first());
    }
}

proof fn lemma_trim_end_len(s: Seq<char>)
    ensures
        trim_end(s).len() <= s.len(),
        s.len() > 0 && is_ws(s.last()) ==> trim_end(s).len() < s.len(),
    decreases s.len(),
{
    if s.len() > 0 && is_ws(s.last()) {
        lemma_trim_end_len(s.drop_last());
    }
}

proof fn lemma_trim_shorter(e: Seq<char>)
    requires
        e.len() > 0,
        is_ws(e.last()),
    ensures
        trim(e).len() < e.len(),
{
    lemma_trim_start_len(e);
    let t = trim_start(e);
    if t.len() == e.len() {
        lemma_trim_start_same(e);
        lemma_trim_end_len(e);
    } else {
        lemma_trim_end_len(t);
    }
}

proof fn lemma_trim_start_same(s: Seq<char>)
    requires
        trim_start(s).len() == s.len(),
    ensures
        trim_start(s) == s,
    decreases s.len(),
{
    if s.len() > 0 && is_ws(s[0]) {
        lemma_trim_start_len(s.drop_first());
    }
}

/// Once `ensure_ignored` has written its text, that text lists the entry, so
/// a second run writes nothing. This holds for entries that are their own
/// trimmed form and hold no line break.
pub proof fn law_ignore_is_idempotent(contents: Option<Seq<char>>, entry: Seq<char>)
    requires
        trim(entry) == entry,
        forall|k: int| 0 <= k < entry.len() ==> entry[k] != '\n',
    ensures
        listed(appended(contents, entry), entry),
{
    let c = match contents {
        Some(c) => c,
        None => seq![],
    };
    let base = if c.len() > 0 && c.last() != '\n' {
        c.push('\n')
    } else {
        c
    };
    let tail = entry + seq!['\n'];
    assert(appended(contents, entry) =~= base + tail);
    lemma_lines_append(base, tail);
    assert forall|k: int| 0 <= k < entry.len() implies tail[k] != '\n' by {}
    lemma_line_end_at_entry(tail, entry.len() as int);
    assert(tail.take(entry.len() as int) =~= entry);
    assert(tail.skip(entry.len() as int + 1) =~= seq![]);
    assert(lines(tail.skip(entry.len() as int + 1)) =~= seq![]);
    if entry.len() > 0 {
        lemma_trim_fixed(entry);
    }
    assert(strip_cr(entry) == entry);
    assert(lines(tail) =~= seq![entry]);
    let all = lines(base + tail);
    assert(all[lines(base).len() as int] == entry);
}

proof fn lemma_line_end_at_entry(s: Seq<char>, m: int)
    requires
        0 <= m < s.len(),
        forall|k: int| 0 <= k < m ==> s[k] != '\n',
        s[m] == '\n',
    ensures
        line_end(s) == m,
    decreases m,
{
    if m > 0 {
        lemma_line_end_at_entry(s.drop_first(), m - 1);
    }
}

/// `ensure_ignored` keeps what the file held: its text begins the new text.
pub proof fn law_ignore_preserves_contents(contents: Seq<char>, entry: Seq<char>)
    ensures
        contents.is_prefix_of(appended(Some(contents), entry)),
{
    let a = appended(Some(contents), entry);
    assert(a.subrange(0, contents.len() as int) =~= contents);
}

/// Where a climb from a path towards the root stands.
pub enum Climb {
    /// Ask about this path.
    Ask(Seq<char>),
    /// The climb ended at `base`, which answered yes when `found` holds and
    /// otherwise has no parent; `climbed` holds the names of the paths left
    /// behind, nearest the start first.
    Reached { base: Seq<char>, climbed: Seq<Seq<char>>, found: bool },
}

/// The names climbed over put in front of a climb's outcome.
pub open spec fn behind(names: Seq<Seq<char>>, c: Climb) -> Climb {
    match c {
        Climb::Ask(q) => Climb::Ask(q),
        Climb::Reached { base, climbed, found } => Climb::Reached {
            base,
            climbed: names + climbed,
            found,
        },
    }
}

/// The climb from `p` given the answers for `p`, its parent, and so on: it
/// stops at the first path answered yes, or at one without a parent; each
/// path left behind gives its file name, if it has one.
pub open spec fn climb(p: Seq<char>, answers: Seq<bool>) -> Climb
    decreases answers.len(),
{
    if answers.len() == 0 {
        Climb::Ask(p)
    } else if answers[0] {
        Climb::Reached { base: p, climbed: seq![], found: true }
    } else {
        let here = match file_name(p) {
            Some(f) => seq![f],
            None => seq![],
        };
        match parent(p) {
            None => Climb::Reached { base: p, climbed: here, found: false },
            Some(q) => behind(here, climb(q, answers.drop_first())),
        }
    }
}

/// What a climb asks or found.
pub enum ClimbStep {
    /// Ask about this path.
    Ask(String),
    /// The climb ended (see `Climb::Reached`).
    Reached { base: String, climbed: Vec<String>, found: bool },
}

impl View for ClimbStep {
    type V = Climb;

    open spec fn view(&self) -> Climb {
        match self {
            ClimbStep::Ask(q) => Climb::Ask(q@),
            ClimbStep::Reached { base, climbed, found } => Climb::Reached {
                base: base@,
                climbed: crate::git::texts(climbed@),
                found: *found,
            },
        }
    }
}

proof fn lemma_climb_step(p: Seq<char>, answers: Seq<bool>)
    requires
        answers.len() > 0,
        !answers[0],
        parent(p) is Some,
    ensures
        climb(p, answers) == behind(
            match file_name(p) {
                Some(f) => seq![f],
                None => seq![],
            },
            climb(parent(p)->Some_0, answers.drop_first()),
        ),
{
}

proof fn lemma_behind_behind(a: Seq<Seq<char>>, b: Seq<Seq<char>>, c: Climb)
    ensures
        behind(a, behind(b, c)) == behind(a + b, c),
{
    match c {
        Climb::Ask(_) => {},
        Climb::Reached { base, climbed, found } => {
            assert(a + (b + climbed) =~= (a + b) + climbed);
        },
    }
}

/// The next move of the climb from `path` towards the root, given the
/// answers so far (`answers[i]` for the `i`-th path on the way, `path`
/// first). Used to find the nearest existing ancestor of a path that may
/// not exist yet, and the names below it.
pub fn climb_step(path: &str, answers: &Vec<bool>) -> (s: ClimbStep)
    ensures
        s@ == climb(path@, answers@),
{
    let mut cur = chars_of(path);
    let mut names: Vec<String> = Vec::new();
    let mut i: usize = 0;
    assert(answers@.skip(0) =~= answers@);
    assert(climb(path@, answers@) == behind(crate::git::texts(names@), climb(cur@, answers@.skip(0)))) by {
        match climb(path@, answers@) {
            Climb::Ask(_) => {},
            Climb::Reached { base, climbed, found } => {
                assert(crate::git::texts(names@) + climbed =~= climbed);
            },
        }
    }
    loop
        invariant
            i <= answers.len(),
            climb(path@, answers@) == behind(crate::git::texts(names@), climb(cur@, answers@.skip(i as int))),
        decreases answers.len() - i,
    {
        let ghost rest = answers@.skip(i as int);
        if i == answers.len() {
            return ClimbStep::Ask(string_of(&cur));
        }
        assert(rest[0] == answers@[i as int]);
        if answers[i] {
            let base = string_of(&cur);
            assert(crate::git::texts(names@) + seq![] =~= crate::git::texts(names@));
            return ClimbStep::Reached { base, climbed: names, found: true };
        }
        let ghost before = crate::git::texts(names@);
        let ghost here = match file_name(cur@) {
            Some(f) => seq![f],
            None => seq![],
        };
        match file_name_of(&cur) {
            Some(f) => {
                names.push(string_of(&f));
                assert(crate::git::texts(names@) =~= before + here);
            },
            None => {
                assert(crate::git::texts(names@) =~= before + here);
            },
        }
        match parent_of(&cur) {
            None => {
                let base = string_of(&cur);
                return ClimbStep::Reached { base, climbed: names, found: false };
            },
            Some(q) => {
                proof {
                    lemma_climb_step(cur@, rest);
                    assert(rest.drop_first() =~= answers@.skip(i + 1));
                    lemma_behind_behind(before, here, climb(q@, rest.drop_first()));
                }
                cur = q;
                i = i + 1;
            },
        }
    }
}

/// `base` with the names climbed over pushed back on, the last climbed
/// first, so that the path below `base` is rebuilt.
pub open spec fn rejoined(base: Seq<char>, climbed: Seq<Seq<char>>) -> Seq<char>
    decreases climbed.len(),
{
    if climbed.len() == 0 {
        base
    } else {
        rejoined(path_join(base, climbed.last()), climbed.drop_last())
    }
}

/// `base` (the canonical form of the ancestor a climb reached) with the
/// names climbed over pushed back on, the last climbed first.
pub fn rejoin(base: &str, climbed: &Vec<String>) -> (p: String)
    ensures
        p@ == rejoined(base@, crate::git::texts(climbed@)),
{
    let ghost all = crate::git::texts(climbed@);
    let mut cur = chars_of(base);
    let mut k = climbed.len();
    assert(all.take(k as int) =~= all);
    while k > 0
        invariant
            k <= climbed.len(),
            all == crate::git::texts(climbed@),
            rejoined(base@, all) == rejoined(cur@, all.take(k as int)),
        decreases k,
    {
        assert(all.take(k as int).last() == climbed@[k - 1]@);
        assert(all.take(k as int).drop_last() =~= all.take(k - 1));
        cur = join_path(&cur, &chars_of(climbed[k - 1].as_str()));
        k = k - 1;
    }
    string_of(&cur)
}

/// The entry counts as listed wherever it stands: when any line of the
/// current text, trimmed, is the entry (the first, the last or one between),
/// `ensure_ignored` writes nothing. When no line is, it is not listed and is
/// appended.
pub proof fn law_listed_at_any_line(contents: Seq<char>, entry: Seq<char>, i: int)
    ensures
        0 <= i < lines(contents).len() && trim(lines(contents)[i]) == entry ==> listed(
            contents,
            entry,
        ),
        (forall|k: int| 0 <= k < lines(contents).len() ==> trim(#[trigger] lines(contents)[k])
            != entry) ==> !listed(contents, entry),
{
}

} // verus!
