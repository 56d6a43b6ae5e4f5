use tree_pool::completions::{branch_candidates, tree_help};
use tree_pool::setup::{
    create_advance, create_start, create_step, reuse_advance, reuse_start, reuse_step, Outcome,
    SetupTask,
};

fn describe(t: &SetupTask) -> String {
    match t {
        SetupTask::MakeDir { path } => format!("mkdir {path}"),
        SetupTask::Clone { source, dest } => format!("clone {source} {dest}"),
        SetupTask::Fetch { dir, remote } => format!("fetch {dir} {remote}"),
        SetupTask::HasRemote { dir, remote } => format!("has-remote {dir} {remote}"),
        SetupTask::RenameRemote { dir, from, to } => format!("rename {dir} {from} {to}"),
        SetupTask::RemoteUrl { dir } => format!("url {dir}"),
        SetupTask::AddRemote { dir, name, url } => format!("add {dir} {name} {url}"),
        SetupTask::DefaultBranch { dir } => format!("default {dir}"),
        SetupTask::BranchRef { dir, branch } => format!("ref {dir} {branch}"),
        SetupTask::Reset { dir, target } => format!("reset {dir} {target}"),
        SetupTask::Checkout { dir, branch, create } => format!("checkout {dir} {branch} {create}"),
    }
}

/// Answers a reused tree's questions: `origin` exists when `has_origin`, the
/// default branch is `main`, its ref is `local/main`.
fn reuse_run(has_origin: bool, is_new: bool) -> Vec<String> {
    let mut stage = reuse_start();
    let mut done = Vec::new();
    while let Some(task) = reuse_step(&stage, "/src/repo", "/pool/1/repo", "feature", is_new) {
        let outcome = match &task {
            SetupTask::HasRemote { .. } => Outcome::Flag(has_origin),
            SetupTask::DefaultBranch { .. } => Outcome::Text("main".to_string()),
            SetupTask::BranchRef { .. } => Outcome::Text("local/main".to_string()),
            _ => Outcome::Finished,
        };
        done.push(describe(&task));
        stage = reuse_advance(stage, outcome);
    }
    done
}

#[test]
fn reused_tree_with_origin() {
    assert_eq!(
        reuse_run(true, false),
        vec![
            "fetch /pool/1/repo local",
            "has-remote /pool/1/repo origin",
            "fetch /pool/1/repo origin",
            "default /src/repo",
            "ref /pool/1/repo main",
            "reset /pool/1/repo local/main",
            "checkout /pool/1/repo feature false",
        ]
    );
}

#[test]
fn reused_tree_without_origin_new_branch() {
    assert_eq!(
        reuse_run(false, true),
        vec![
            "fetch /pool/1/repo local",
            "has-remote /pool/1/repo origin",
            "default /src/repo",
            "ref /pool/1/repo main",
            "reset /pool/1/repo local/main",
            "checkout /pool/1/repo feature true",
        ]
    );
}

#[test]
fn reuse_question_waits_for_its_answer() {
    let stage = reuse_advance(reuse_start(), Outcome::Finished);
    let stage = reuse_advance(stage, Outcome::Finished);
    let task = reuse_step(&stage, "/src/repo", "/t", "b", false).unwrap();
    assert_eq!(describe(&task), "has-remote /t origin");
}

fn create_run(url: Option<&str>) -> Vec<String> {
    let dest = "/pool/2/repo";
    let mut stage = create_start(dest);
    let mut done = Vec::new();
    while let Some(task) = create_step(&stage, "/src/repo", dest, "main", false) {
        let outcome = match &task {
            SetupTask::RemoteUrl { .. } => Outcome::MaybeText(url.map(|u| u.to_string())),
            _ => Outcome::Finished,
        };
        done.push(describe(&task));
        stage = create_advance(stage, outcome);
    }
    done
}

#[test]
fn new_tree_with_upstream() {
    assert_eq!(
        create_run(Some("https://example.com/repo.git")),
        vec![
            "mkdir /pool/2",
            "clone /src/repo /pool/2/repo",
            "rename /pool/2/repo origin local",
            "url /src/repo",
            "add /pool/2/repo origin https://example.com/repo.git",
            "fetch /pool/2/repo origin",
            "checkout /pool/2/repo main false",
        ]
    );
}

#[test]
fn new_tree_without_upstream() {
    assert_eq!(
        create_run(None),
        vec![
            "mkdir /pool/2",
            "clone /src/repo /pool/2/repo",
            "rename /pool/2/repo origin local",
            "url /src/repo",
            "checkout /pool/2/repo main false",
        ]
    );
}

#[test]
fn branch_candidates_keep_order_and_prefix() {
    let branches = vec![
        "feature/b".to_string(),
        "main".to_string(),
        "feature/a".to_string(),
        "fix".to_string(),
    ];
    assert_eq!(branch_candidates(&branches, "feature/"), vec!["feature/b", "feature/a"]);
    assert_eq!(branch_candidates(&branches, "f"), vec!["feature/b", "feature/a", "fix"]);
    assert_eq!(branch_candidates(&branches, ""), branches);
    assert!(branch_candidates(&branches, "release").is_empty());
}

#[test]
fn tree_help_names_the_tree() {
    assert_eq!(tree_help("3"), "tree 3");
}
