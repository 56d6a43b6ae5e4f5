//! Where a repository's pool lives, where its trees go, and which tree a
//! request for one gets.
use vstd::prelude::*;

use sha2::Digest;

use crate::config::{root_from, Config, ConfigError};
use crate::paths::{file_name, file_name_of, join_path, path_join};
use crate::text::{chars_of, concat, decimal, decimal_chars, string_of};

verus! {

/// The SHA-256 digest of `data`.
pub uninterp spec fn sha256(data: Seq<u8>) -> Seq<u8>;

/// `sha2::Sha256::digest`: the SHA-256 digest of `data`, 32 bytes long (the
/// output size of `Sha256`).
#[verifier::external_body]
fn sha256_digest(data: &[u8]) -> (digest: Vec<u8>)
    ensures
        digest@ == sha256(data@),
        digest@.len() == 32,
{
    sha2::Sha256::digest(data).to_vec()
}

/// The lower-case hexadecimal digit for `n < 16`.
pub open spec fn hex_digit(n: nat) -> char {
    if n < 10 {
        crate::text::digit_char(n)
    } else if n == 10 {
        'a'
    } else if n == 11 {
        'b'
    } else if n == 12 {
        'c'
    } else if n == 13 {
        'd'
    } else if n == 14 {
        'e'
    } else {
        'f'
    }
}

/// Lower-case hexadecimal text of the bytes, two digits per byte, high
/// nibble first.
pub open spec fn hex_lower(data: Seq<u8>) -> Seq<char>
    decreases data.len(),
{
    if data.len() == 0 {
        seq![]
    } else {
        seq![hex_digit((data[0] / 16) as nat), hex_digit((data[0] % 16) as nat)] + hex_lower(
            data.drop_first(),
        )
    }
}

/// `hex::encode`: the bytes as lower-case hexadecimal text (the crate maps
/// each byte to the characters of `0123456789abcdef` at its high and its low
/// four bits).
#[verifier::external_body]
fn hex_encode(data: &[u8]) -> (text: String)
    ensures
        text@ == hex_lower(data@),
{
    hex::encode(data)
}

proof fn lemma_hex_len(data: Seq<u8>)
    ensures
        hex_lower(data).len() == 2 * data.len(),
    decreases data.len(),
{
    if data.len() > 0 {
        lemma_hex_len(data.drop_first());
    }
}

/// The first six hexadecimal digits of the SHA-256 digest of the text's
/// UTF-8 bytes.
pub open spec fn short_hash(input: Seq<char>) -> Seq<char> {
    hex_lower(sha256(vstd::utf8::encode_utf8(input)).take(3))
}

/// The first 6 hex characters of SHA-256 of `input`.
pub fn short_sha256(input: &str) -> (h: String)
    ensures
        h@ == short_hash(input@),
        h@.len() == 6,
{
    let digest = sha256_digest(input.as_bytes());
    let mut first: Vec<u8> = Vec::new();
    let mut i: usize = 0;
    while i < 3
        invariant
            i <= 3,
            digest@.len() == 32,
            first@ == digest@.take(i as int),
        decreases 3 - i,
    {
        first.push(digest[i]);
        assert(first@ =~= digest@.take(i + 1));
        i = i + 1;
    }
    proof {
        lemma_hex_len(first@);
    }
    hex_encode(first.as_slice())
}

/// The directory of a tree: `<pool>/<name>/<repo>`.
pub open spec fn tree_path_of(pool_dir: Seq<char>, name: Seq<char>, repo_name: Seq<char>) -> Seq<
    char,
> {
    path_join(path_join(pool_dir, name), repo_name)
}

/// Where a tree of the pool lives: `<pool_dir>/<name>/<repo_name>`.
pub fn tree_path(pool_dir: &str, name: &str, repo_name: &str) -> (p: String)
    ensures
        p@ == tree_path_of(pool_dir@, name@, repo_name@),
{
    let inner = join_path(&chars_of(pool_dir), &chars_of(name));
    string_of(&join_path(&inner, &chars_of(repo_name)))
}

/// Why no pool directory could be determined.
pub enum PoolError {
    /// The pool root could not be resolved.
    Root(ConfigError),
    /// The repository root has no final name.
    NoRepoName,
}

/// The text a pool is identified by: the URL of `origin` when there is one,
/// else the canonical repository root.
pub open spec fn hash_input(origin_url: Option<Seq<char>>, canonical_root: Seq<char>) -> Seq<char> {
    match origin_url {
        Some(u) => u,
        None => canonical_root,
    }
}

/// `<base>/.tree-pool/<repo name>-<short hash>`.
pub open spec fn pool_dir_of(base: Seq<char>, repo_name: Seq<char>, input: Seq<char>) -> Seq<char> {
    path_join(path_join(base, ".tree-pool"@), repo_name + "-"@ + short_hash(input))
}

/// The pool directory under the resolved root `base`, named after the
/// repository's last path component and the short hash of its identity.
pub fn pool_dir_under(
    base: &str,
    repo_root: &str,
    origin_url: Option<String>,
    canonical_root: &str,
) -> (r: Result<String, PoolError>)
    ensures
        match file_name(repo_root@) {
            None => r matches Err(PoolError::NoRepoName),
            Some(n) => r matches Ok(p) && p@ == pool_dir_of(
                base@,
                n,
                hash_input(
                    match origin_url {
                        Some(u) => Some(u@),
                        None => None,
                    },
                    canonical_root@,
                ),
            ),
        },
{
    let name = match file_name_of(&chars_of(repo_root)) {
        Some(n) => n,
        None => return Err(PoolError::NoRepoName),
    };
    let hash = match origin_url {
        Some(u) => short_sha256(u.as_str()),
        None => short_sha256(canonical_root),
    };
    let dir_name = concat(&concat(&name, &chars_of("-")), &chars_of(hash.as_str()));
    let under = join_path(&chars_of(base), &chars_of(".tree-pool"));
    Ok(string_of(&join_path(&under, &dir_name)))
}

/// The pool directory of a repository: the configured root, resolved as
/// `Config::resolve_root` does, then `.tree-pool/<repo name>-<short hash>`,
/// the hash taken of the `origin` URL or, without one, of the canonical root.
pub fn resolve_pool_dir(
    repo_root: &str,
    config: &Config,
    origin_url: Option<String>,
    canonical_root: &str,
) -> (r: Result<String, PoolError>)
    ensures
        config.root@.len() > 0 && !config.root@.contains('$') ==> match file_name(repo_root@) {
            None => r matches Err(PoolError::NoRepoName),
            Some(n) => r matches Ok(p) && p@ == pool_dir_of(
                crate::config::root_from(repo_root@, config.root@),
                n,
                hash_input(
                    match origin_url {
                        Some(u) => Some(u@),
                        None => None,
                    },
                    canonical_root@,
                ),
            ),
        },
        r matches Ok(p) ==> (file_name(repo_root@) matches Some(n) && exists|b: Seq<char>|
            p@ == pool_dir_of(b, n, hash_input(origin_view(origin_url), canonical_root@)) && (
            config.root@.len() > 0 ==> exists|x: Seq<char>| b == root_from(repo_root@, x))),
        config.root@.len() == 0 && file_name(repo_root@) is Some ==> (r is Ok || r matches Err(
            PoolError::Root(ConfigError::NoHome),
        )),
        file_name(repo_root@) is Some ==> (r is Ok || r matches Err(PoolError::Root(_))),
        r matches Err(PoolError::Root(e)) ==> (config.root@.len() == 0 && e is NoHome) || (
        config.root@.contains('$') && e is Expand),
        r matches Err(PoolError::NoRepoName) ==> file_name(repo_root@) is None,
        file_name(repo_root@) is None ==> r is Err,
{
    let base = match config.resolve_root(repo_root) {
        Ok(b) => b,
        Err(e) => return Err(PoolError::Root(e)),
    };
    let ghost b = base@;
    let r = pool_dir_under(base.as_str(), repo_root, origin_url, canonical_root);
    proof {
        if r is Ok {
            let n = file_name(repo_root@)->Some_0;
            assert(r->Ok_0@ == pool_dir_of(b, n, hash_input(origin_view(origin_url), canonical_root@)));
        }
    }
    r
}

/// The text of an optional URL.
pub open spec fn origin_view(origin_url: Option<String>) -> Option<Seq<char>> {
    match origin_url {
        Some(u) => Some(u@),
        None => None,
    }
}

/// The pool is keyed by the `origin` URL: two repositories of one name with
/// one `origin`, under one root, share a pool wherever they lie.
pub proof fn law_one_origin_one_pool(
    base: Seq<char>,
    repo_name: Seq<char>,
    url: Seq<char>,
    canonical_a: Seq<char>,
    canonical_b: Seq<char>,
)
    ensures
        pool_dir_of(base, repo_name, hash_input(Some(url), canonical_a)) == pool_dir_of(
            base,
            repo_name,
            hash_input(Some(url), canonical_b),
        ),
{
}

/// What the search for a tree asks or decides next.
pub enum AcquireStep {
    /// Ask whether tree `i` can be reused (no process in it, not dirty).
    Check(usize),
    /// Reuse tree `i`.
    Reuse(usize),
    /// Make a new tree.
    Create,
    /// Every tree is taken and the pool is at its limit.
    Full,
}

/// A tree can be reused when no process runs in it and it is known to be
/// clean; when its state cannot be read, it counts as dirty.
pub fn usable(in_use: bool, dirty: Option<bool>) -> (b: bool)
    ensures
        b == (!in_use && dirty == Some(false)),
{
    !in_use && match dirty {
        Some(d) => !d,
        None => false,
    }
}

/// The trees are tried in order; the first usable one is taken. With none,
/// a new tree is made while the pool holds fewer than `max_trees`.
/// `answers[i]` says whether tree `i` was found usable.
pub fn acquire_step(tree_count: usize, max_trees: usize, answers: &Vec<bool>) -> (s: AcquireStep)
    requires
        answers.len() <= tree_count,
    ensures
        match s {
            AcquireStep::Reuse(i) => 0 <= i < answers.len() && answers@[i as int] && forall|j: int|
                0 <= j < i ==> !answers@[j],
            AcquireStep::Check(i) => i == answers.len() && i < tree_count && forall|j: int|
                0 <= j < answers.len() ==> !answers@[j],
            AcquireStep::Create => answers.len() == tree_count && tree_count < max_trees
                && forall|j: int| 0 <= j < answers.len() ==> !answers@[j],
            AcquireStep::Full => answers.len() == tree_count && tree_count >= max_trees
                && forall|j: int| 0 <= j < answers.len() ==> !answers@[j],
        },
{
    let mut i: usize = 0;
    while i < answers.len()
        invariant
            i <= answers.len(),
            forall|j: int| 0 <= j < i ==> !answers@[j],
        decreases answers.len() - i,
    {
        if answers[i] {
            return AcquireStep::Reuse(i);
        }
        i = i + 1;
    }
    if answers.len() < tree_count {
        AcquireStep::Check(answers.len())
    } else if tree_count < max_trees {
        AcquireStep::Create
    } else {
        AcquireStep::Full
    }
}

/// The refusal when every tree is taken.
pub open spec fn full_message(max_trees: nat) -> Seq<char> {
    "all "@ + decimal(max_trees) + FULL_HINT@
}

pub const FULL_HINT: &'static str = " trees are in use or dirty — run `tp status` to see details, `tp return` to free a tree, or increase max_trees in tree-pool.toml";

/// The message given when the pool is full.
pub fn full_pool_message(max_trees: usize) -> (m: String)
    ensures
        m@ == full_message(max_trees as nat),
{
    let head = concat(&chars_of("all "), &decimal_chars(max_trees as u64));
    string_of(&concat(&head, &chars_of(FULL_HINT)))
}

} // verus!
