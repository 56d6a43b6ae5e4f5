use tree_pool::config::Config;
use tree_pool::pool::{
    acquire_step, full_pool_message, pool_dir_under, resolve_pool_dir, short_sha256, tree_path,
    usable, AcquireStep, PoolError,
};

#[test]
fn short_sha256_consistent() {
    let hash = short_sha256("https://github.com/user/repo.git");
    assert_eq!(hash.len(), 6);
    assert_eq!(hash, short_sha256("https://github.com/user/repo.git"));
}

#[test]
fn short_sha256_different_inputs() {
    let h1 = short_sha256("input1");
    let h2 = short_sha256("input2");
    assert_ne!(h1, h2);
}

#[test]
fn short_sha256_known_value() {
    // SHA-256 of "abc" begins ba 78 16.
    assert_eq!(short_sha256("abc"), "ba7816");
    // SHA-256 of "" begins e3 b0 c4.
    assert_eq!(short_sha256(""), "e3b0c4");
}

#[test]
fn tree_path_format() {
    let pool_dir = "/home/user/.tree-pool/myrepo-abc123";
    let path = tree_path(pool_dir, "1", "myrepo");
    assert_eq!(path, "/home/user/.tree-pool/myrepo-abc123/1/myrepo");
}

#[test]
fn pool_dir_uses_origin_url_hash() {
    let p = pool_dir_under("/base", "/src/myrepo", Some("abc".to_string()), "/ignored").ok().unwrap();
    assert_eq!(p, "/base/.tree-pool/myrepo-ba7816");
    let q = pool_dir_under("/base/", "/src/myrepo/", None, "abc").ok().unwrap();
    assert_eq!(q, "/base/.tree-pool/myrepo-ba7816");
}

#[test]
fn pool_dir_needs_repo_name() {
    assert!(matches!(
        pool_dir_under("/base", "/", None, "/"),
        Err(PoolError::NoRepoName)
    ));
}

#[test]
fn resolve_pool_dir_under_configured_root() {
    let config = Config {
        max_trees: 16,
        root: "pools".to_string(),
    };
    let p = resolve_pool_dir("/src/myrepo", &config, Some("abc".to_string()), "/src/myrepo")
        .ok()
        .unwrap();
    assert_eq!(p, "/src/myrepo/pools/.tree-pool/myrepo-ba7816");
}

#[test]
fn acquire_reuses_first_usable_tree() {
    assert!(matches!(acquire_step(3, 16, &vec![]), AcquireStep::Check(0)));
    assert!(matches!(acquire_step(3, 16, &vec![false]), AcquireStep::Check(1)));
    assert!(matches!(acquire_step(3, 16, &vec![false, true]), AcquireStep::Reuse(1)));
    assert!(matches!(acquire_step(3, 16, &vec![false, false, false]), AcquireStep::Create));
    assert!(matches!(acquire_step(3, 3, &vec![false, false, false]), AcquireStep::Full));
    assert!(matches!(acquire_step(0, 0, &vec![]), AcquireStep::Full));
}

#[test]
fn usable_needs_clean_and_idle() {
    assert!(usable(false, Some(false)));
    assert!(!usable(true, Some(false)));
    assert!(!usable(false, Some(true)));
    assert!(!usable(false, None));
}

#[test]
fn full_message_names_limit() {
    let m = full_pool_message(16);
    assert!(m.starts_with("all 16 trees are in use or dirty"));
    assert!(m.ends_with("increase max_trees in tree-pool.toml"));
}

#[test]
fn one_origin_one_pool() {
    let a = pool_dir_under("/home/u", "/w/one/repo", Some("git@h:r.git".to_string()), "/w/one/repo");
    let b = pool_dir_under("/home/u", "/x/two/repo", Some("git@h:r.git".to_string()), "/x/two/repo");
    assert_eq!(a.ok().unwrap(), b.ok().unwrap());
}
