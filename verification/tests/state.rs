use tree_pool::state::{State, Timestamp};

/// A fixed creation time for the entries the tests add.
const CREATED: Timestamp = Timestamp { secs: 1_700_000_000, nanos: 0 };

/// The canonical form of a path, or the path itself when it cannot be resolved.
fn canonical(p: &str) -> String {
    std::path::Path::new(p)
        .canonicalize()
        .map(|c| c.to_string_lossy().to_string())
        .unwrap_or_else(|_| p.to_string())
}

fn canonical_all(state: &State) -> Vec<String> {
    state.trees.iter().map(|t| canonical(&t.path)).collect()
}

#[test]
fn empty_state_by_default() {
    let state = State::default();
    assert!(state.trees.is_empty());
}

#[test]
fn next_name_empty_state() {
    let state = State::default();
    assert_eq!(state.next_name(), "1");
}

#[test]
fn next_name_with_entries() {
    let mut state = State::default();
    state.add("1".to_string(), "/a".to_string(), CREATED);
    state.add("3".to_string(), "/b".to_string(), CREATED);
    assert_eq!(state.next_name(), "4");
}

#[test]
fn next_name_ignores_non_numeric_names() {
    let mut state = State::default();
    state.add("abc".to_string(), "/a".to_string(), CREATED);
    state.add("+7".to_string(), "/b".to_string(), CREATED);
    state.add("99999999999".to_string(), "/c".to_string(), CREATED);
    assert_eq!(state.next_name(), "8");
}

#[test]
fn find_by_path() {
    let mut state = State::default();
    state.add("1".to_string(), "/a/b/c".to_string(), CREATED);
    let canon = canonical_all(&state);
    assert!(state.find_by_path(&canon, &canonical("/a/b/c")).is_some());
    assert!(state.find_by_path(&canon, &canonical("/x/y/z")).is_none());
}

#[test]
fn find_by_path_compares_components() {
    let mut state = State::default();
    state.add("1".to_string(), "/a/b/c/".to_string(), CREATED);
    state.add("2".to_string(), "/a/b/c".to_string(), CREATED);
    let canon = vec!["/a/b/c/".to_string(), "/a/b/c".to_string()];
    let found = state.find_by_path(&canon, "/a//b/./c").unwrap();
    assert_eq!(found.name, "1");
}

#[test]
fn remove_by_path() {
    let mut state = State::default();
    state.add("1".to_string(), "/a".to_string(), CREATED);
    state.add("2".to_string(), "/b".to_string(), CREATED);
    let canon = canonical_all(&state);
    state.remove_by_path(&canon, &canonical("/a"));
    assert_eq!(state.trees.len(), 1);
    assert_eq!(state.trees[0].name, "2");
}

#[test]
fn find_by_path_canonicalizes() {
    // A path that only names an existing directory once resolved.
    let path = "/tmp/../tmp".to_string();
    let canonical_path = canonical(&path);
    assert_eq!(canonical_path, canonical("/tmp"));
    let mut state = State::default();
    state.add("1".to_string(), path.clone(), CREATED);
    let canon = canonical_all(&state);
    assert!(state.find_by_path(&canon, &canonical_path).is_some());
}

#[test]
fn remove_by_path_canonicalizes() {
    // A path that only names an existing directory once resolved.
    let path = "/tmp/../tmp".to_string();
    let canonical_path = canonical(&path);
    assert_eq!(canonical_path, canonical("/tmp"));
    let mut state = State::default();
    state.add("1".to_string(), path.clone(), CREATED);
    let canon = canonical_all(&state);
    state.remove_by_path(&canon, &canonical_path);
    assert!(state.trees.is_empty());
}

#[test]
fn heal_drops_missing_paths() {
    let mut state = State::default();
    state.add("1".to_string(), "/nonexistent/path".to_string(), CREATED);
    state.add("2".to_string(), "/tmp".to_string(), CREATED);
    let changed = state.heal(&vec![false, true]);
    assert!(changed);
    assert_eq!(state.trees.len(), 1);
    assert_eq!(state.trees[0].name, "2");
    assert!(!state.heal(&vec![true]));
}

#[test]
fn add_records_the_creation_time() {
    let mut state = State::default();
    state.add("1".to_string(), "/a".to_string(), CREATED);
    assert_eq!(state.trees[0].created_at, CREATED);
}

#[test]
fn next_name_checked_refuses_overflow() {
    let mut state = State::default();
    assert_eq!(state.next_name_checked(), Some("1".to_string()));
    state.add("4294967294".to_string(), "/a".to_string(), CREATED);
    assert_eq!(state.next_name_checked(), Some("4294967295".to_string()));
    state.add("4294967295".to_string(), "/b".to_string(), CREATED);
    assert_eq!(state.next_name_checked(), None);
}
