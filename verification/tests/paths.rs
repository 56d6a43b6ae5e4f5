use std::path::Path;

use tree_pool::paths::{
    file_name_of, join_path, parent_of, same_path_as, starts_with_path, strip_path_prefix,
};

fn chars(s: &str) -> Vec<char> {
    s.chars().collect()
}

fn text(v: Vec<char>) -> String {
    v.into_iter().collect()
}

const SAMPLES: &[&str] = &[
    "", "/", "//", ".", "./", ".//", "./.", "..", "../a", "a", "a/", "a//", "a/.", "a/./b",
    "./a", "./a/b/", "/a", "/a/", "/a//b", "/a/b/.", "/a/./b//", "/home/u", "/home/u/",
    "/home/u/x//y", "/home/u/x/./y/", "home/u", "a/..", "/a/../b", "a/b/c", "..a", ".a/b",
    "/.", "/./a", "x/.//",
];

#[test]
fn path_equality_matches_std() {
    for a in SAMPLES {
        for b in SAMPLES {
            assert_eq!(
                same_path_as(&chars(a), &chars(b)),
                Path::new(a) == Path::new(b),
                "{a:?} == {b:?}"
            );
        }
    }
}

#[test]
fn path_prefix_test_matches_std() {
    for p in SAMPLES {
        for b in SAMPLES {
            assert_eq!(
                starts_with_path(&chars(p), &chars(b)),
                Path::new(p).starts_with(b),
                "{p:?} starts with {b:?}"
            );
        }
    }
}

#[test]
fn strip_prefix_matches_std() {
    for p in SAMPLES {
        for b in SAMPLES {
            let ours = strip_path_prefix(&chars(p), &chars(b)).map(text);
            let std = Path::new(p)
                .strip_prefix(b)
                .ok()
                .map(|r| r.to_string_lossy().to_string());
            assert_eq!(ours, std, "{p:?} without {b:?}");
        }
    }
}

#[test]
fn parent_and_file_name_match_std() {
    for p in SAMPLES {
        let ours = parent_of(&chars(p)).map(text);
        let std = Path::new(p).parent().map(|r| r.to_string_lossy().to_string());
        assert_eq!(ours, std, "parent of {p:?}");
        let ours = file_name_of(&chars(p)).map(text);
        let std = Path::new(p).file_name().map(|r| r.to_string_lossy().to_string());
        assert_eq!(ours, std, "file name of {p:?}");
    }
}

#[test]
fn join_matches_std() {
    for a in SAMPLES {
        for b in SAMPLES {
            let ours = text(join_path(&chars(a), &chars(b)));
            let std = Path::new(a).join(b).to_string_lossy().to_string();
            assert_eq!(ours, std, "{a:?} joined with {b:?}");
        }
    }
}

#[test]
fn dot_and_double_slash_are_kept_as_std_keeps_them() {
    assert!(!starts_with_path(&chars("./a"), &chars("a")));
    assert!(!same_path_as(&chars("./a"), &chars("a")));
    assert_eq!(
        strip_path_prefix(&chars("/home/u/x//y"), &chars("/home/u")).map(text),
        Some("x//y".to_string())
    );
}
