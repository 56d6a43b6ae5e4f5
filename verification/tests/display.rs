use tree_pool::display::{
    branch_label, is_current_dir, pretty_path, pretty_path_with, process_line, status_label,
    status_line, tree_status, TreeStatus,
};
use tree_pool::process::ProcessInfo;

#[test]
fn pretty_path_replaces_home() {
    if let Some(home) = dirs::home_dir() {
        let path = home.join("projects").join("test");
        let pretty = pretty_path(&path.to_string_lossy());
        assert!(pretty.starts_with("~/"));
        assert!(pretty.contains("projects/test"));
    }
}

#[test]
fn pretty_path_leaves_non_home_alone() {
    let pretty = pretty_path("/tmp/something");
    assert_eq!(pretty, "/tmp/something");
}

#[test]
fn pretty_path_with_given_home() {
    assert_eq!(
        pretty_path_with("/home/u/projects/x", Some("/home/u".to_string())),
        "~/projects/x"
    );
    assert_eq!(pretty_path_with("/home/u", Some("/home/u".to_string())), "~/");
    assert_eq!(
        pretty_path_with("/home/user2/x", Some("/home/u".to_string())),
        "/home/user2/x"
    );
    assert_eq!(pretty_path_with("/home/u/x", None), "/home/u/x");
    assert_eq!(
        pretty_path_with("/home/u/x//y", Some("/home/u".to_string())),
        "~/x//y"
    );
}

#[test]
fn current_dir_inside_tree() {
    assert!(is_current_dir("/p/1/repo", Some("/p/1/repo".to_string())));
    assert!(is_current_dir("/p/1/repo", Some("/p/1/repo/src".to_string())));
    assert!(!is_current_dir("/p/1/repo", Some("/p/1/repository".to_string())));
    assert!(!is_current_dir("/p/1/repo", None));
}

#[test]
fn status_priority() {
    assert_eq!(tree_status(true, true, true), TreeStatus::Here);
    assert_eq!(tree_status(false, true, true), TreeStatus::InUse);
    assert_eq!(tree_status(false, false, true), TreeStatus::Dirty);
    assert_eq!(tree_status(false, false, false), TreeStatus::Available);
    assert_eq!(status_label(TreeStatus::InUse), "in-use");
    assert_eq!(status_label(TreeStatus::Available), "available");
}

#[test]
fn status_row_layout() {
    let row = status_line("1", "available", "main", "~/x");
    assert_eq!(row, format!("{:>4}  {:<11}  {:<20}  {}", "1", "available", "main", "~/x"));
    let long = status_line("12345", "here", "a-very-long-branch-name-here", "/p");
    assert_eq!(
        long,
        format!("{:>4}  {:<11}  {:<20}  {}", "12345", "here", "a-very-long-branch-name-here", "/p")
    );
    assert_eq!(branch_label(None), "(detached)");
    assert_eq!(branch_label(Some("main".to_string())), "main");
}

#[test]
fn process_line_lists_processes() {
    let procs = vec![
        ProcessInfo { pid: 12, name: "bash".to_string() },
        ProcessInfo { pid: 345, name: "vim".to_string() },
    ];
    assert_eq!(process_line(&procs), "        bash (12), vim (345)");
    assert_eq!(process_line(&vec![]), "        ");
}
