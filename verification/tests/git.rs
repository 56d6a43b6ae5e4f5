use tree_pool::git::{
    add_remote, branch_exists, branch_ref, checkout_branch, clone_local, create_and_checkout_branch,
    current_branch, default_branch, fetch_remote, has_remote, is_dirty, list_branches_by_date,
    remote_url, rename_remote, repo_root, reset_tree, unpushed_branches, GitCommand, GitError,
    GitReply, GitStep,
};

fn ran(success: bool, stdout: &str) -> GitReply {
    GitReply::Ran { success, stdout: stdout.to_string(), stderr: String::new() }
}

/// Run an operation to its end, answering each command with `answer`; gives
/// the result and the commands, as argument lists, in the order asked.
fn drive<T>(
    op: impl Fn(&Vec<GitReply>) -> GitStep<T>,
    answer: impl Fn(&GitCommand) -> GitReply,
) -> (Result<T, GitError>, Vec<String>) {
    let mut replies = Vec::new();
    let mut asked = Vec::new();
    loop {
        match op(&replies) {
            GitStep::Run(cmd) => {
                asked.push(cmd.args.join(" "));
                replies.push(answer(&cmd));
            }
            GitStep::Done(r) => return (r, asked),
        }
    }
}

#[test]
fn repo_root_trims_output() {
    let (r, asked) = drive(|rs| repo_root("/w", rs), |_| ran(true, "  /w/repo\n"));
    assert_eq!(r.ok().unwrap(), "/w/repo");
    assert_eq!(asked, vec!["rev-parse --show-toplevel"]);
}

#[test]
fn failure_names_command_and_stderr() {
    let (r, _) = drive(
        |rs| repo_root("/w", rs),
        |_| GitReply::Ran {
            success: false,
            stdout: String::new(),
            stderr: "fatal: not a git repository\n".to_string(),
        },
    );
    match r {
        Err(GitError::Failed { command, stderr }) => {
            assert_eq!(command, "rev-parse --show-toplevel");
            assert_eq!(stderr, "fatal: not a git repository");
        }
        _ => panic!("expected a failure"),
    }
    let (r, _) = drive(|rs| repo_root("/w", rs), |_| GitReply::Unavailable);
    assert!(matches!(r, Err(GitError::Spawn)));
}

#[test]
fn dirty_when_status_prints() {
    let (r, asked) = drive(|rs| is_dirty("/t", rs), |_| ran(true, " M file.txt\n"));
    assert!(r.ok().unwrap());
    assert_eq!(asked, vec!["status --porcelain"]);
    let (r, _) = drive(|rs| is_dirty("/t", rs), |_| ran(true, "\n"));
    assert!(!r.ok().unwrap());
}

#[test]
fn current_branch_detached_or_named() {
    let (r, _) = drive(|rs| current_branch("/t", rs), |_| ran(true, "HEAD\n"));
    assert!(r.ok().unwrap().is_none());
    let (r, _) = drive(|rs| current_branch("/t", rs), |_| ran(true, "main\n"));
    assert_eq!(r.ok().unwrap().unwrap(), "main");
}

#[test]
fn has_remote_matches_whole_lines() {
    let (r, _) = drive(|rs| has_remote("/t", "origin", rs), |_| ran(true, "local\norigin\n"));
    assert!(r.ok().unwrap());
    let (r, _) = drive(|rs| has_remote("/t", "orig", rs), |_| ran(true, "local\norigin\n"));
    assert!(!r.ok().unwrap());
}

#[test]
fn remote_url_without_origin_is_none() {
    let (r, asked) = drive(|rs| remote_url("/t", rs), |_| ran(true, "upstream\n"));
    assert!(r.ok().unwrap().is_none());
    assert_eq!(asked, vec!["remote"]);
    let (r, asked) = drive(
        |rs| remote_url("/t", rs),
        |c| {
            if c.args.len() == 1 {
                ran(true, "origin\n")
            } else {
                ran(true, "https://example.com/repo.git\n")
            }
        },
    );
    assert_eq!(r.ok().unwrap().unwrap(), "https://example.com/repo.git");
    assert_eq!(asked, vec!["remote", "remote get-url origin"]);
}

#[test]
fn default_branch_fallbacks() {
    let (r, asked) = drive(|rs| default_branch("/t", rs), |_| ran(true, "refs/remotes/origin/main\n"));
    assert_eq!(r.ok().unwrap(), "main");
    assert_eq!(asked.len(), 1);
    let (r, asked) = drive(
        |rs| default_branch("/t", rs),
        |c| {
            if c.args[1] == "HEAD" {
                ran(true, "refs/heads/trunk\n")
            } else {
                ran(false, "")
            }
        },
    );
    assert_eq!(r.ok().unwrap(), "trunk");
    assert_eq!(asked.len(), 2);
    let (r, asked) = drive(
        |rs| default_branch("/t", rs),
        |c| if c.args[0] == "config" { ran(true, "dev\n") } else { ran(false, "") },
    );
    assert_eq!(r.ok().unwrap(), "dev");
    assert_eq!(asked, vec!["symbolic-ref refs/remotes/origin/HEAD", "symbolic-ref HEAD", "config init.defaultBranch"]);
    let (r, _) = drive(|rs| default_branch("/t", rs), |_| ran(true, ""));
    assert!(matches!(r, Err(GitError::NoDefaultBranch)));
}

#[test]
fn branch_ref_prefers_newer() {
    // Only local.
    let (r, _) = drive(
        |rs| branch_ref("/t", "main", rs),
        |c| ran(c.args[2] == "refs/heads/main", ""),
    );
    assert_eq!(r.ok().unwrap(), "refs/heads/main");
    // Only remote.
    let (r, _) = drive(|rs| branch_ref("/t", "main", rs), |c| ran(c.args[2] == "origin/main", ""));
    assert_eq!(r.ok().unwrap(), "origin/main");
    // Neither.
    let (r, _) = drive(|rs| branch_ref("/t", "main", rs), |_| ran(false, ""));
    assert!(matches!(r, Err(GitError::NoRef { .. })));
    // Both; local behind remote.
    let (r, asked) = drive(
        |rs| branch_ref("/t", "main", rs),
        |c| ran(c.args[0] == "rev-parse" || c.args[2] == "refs/heads/main", ""),
    );
    assert_eq!(r.ok().unwrap(), "origin/main");
    assert_eq!(asked.len(), 3);
    // Both; remote behind local.
    let (r, asked) = drive(
        |rs| branch_ref("/t", "main", rs),
        |c| ran(c.args[0] == "rev-parse" || c.args[2] == "origin/main", ""),
    );
    assert_eq!(r.ok().unwrap(), "refs/heads/main");
    assert_eq!(asked.len(), 4);
    // Diverged.
    let (r, _) = drive(|rs| branch_ref("/t", "main", rs), |c| ran(c.args[0] == "rev-parse", ""));
    assert_eq!(r.ok().unwrap(), "origin/main");
}

#[test]
fn branch_exists_checks_local_and_origin() {
    let (r, asked) = drive(
        |rs| branch_exists("/t", "feat", rs),
        |c| ran(c.args[2] == "refs/remotes/origin/feat", ""),
    );
    assert!(r.ok().unwrap());
    assert_eq!(asked, vec!["rev-parse --verify refs/heads/feat", "rev-parse --verify refs/remotes/origin/feat"]);
    let (r, _) = drive(|rs| branch_exists("/t", "nonexistent-branch-xyz", rs), |_| ran(false, ""));
    assert!(!r.ok().unwrap());
}

#[test]
fn list_branches_dedups_and_strips_origin() {
    let out = "main\nfeature/x\norigin/HEAD -> origin/main\norigin/main\norigin/topic\n\n  feature/x  \n";
    let (r, asked) = drive(|rs| list_branches_by_date("/t", rs), |_| ran(true, out));
    assert_eq!(r.ok().unwrap(), vec!["main", "feature/x", "topic"]);
    assert_eq!(asked, vec!["branch --all --sort=-committerdate --format=%(refname:short)"]);
}

#[test]
fn unpushed_branches_scan() {
    // main is on origin and not ahead; feature/new exists nowhere;
    // side is on local only, and ahead of it.
    let (r, asked) = drive(
        |rs| unpushed_branches("/t", rs),
        |c| {
            let a: Vec<&str> = c.args.iter().map(|s| s.as_str()).collect();
            match a.as_slice() {
                ["branch", _] => ran(true, "main\nfeature/new\nside\n"),
                ["remote"] => ran(true, "origin\nlocal\n"),
                ["rev-parse", "--verify", r] => ran(*r == "origin/main" || *r == "local/side", ""),
                ["merge-base", "--is-ancestor", b, _] => ran(*b == "main", ""),
                _ => panic!("unexpected command"),
            }
        },
    );
    assert_eq!(r.ok().unwrap(), vec!["feature/new", "side"]);
    assert_eq!(asked.len(), 2 + 2 + 2 + 3);
}

#[test]
fn unpushed_branches_none_when_pushed() {
    let (r, _) = drive(
        |rs| unpushed_branches("/t", rs),
        |c| match c.args[0].as_str() {
            "branch" => ran(true, "main\n"),
            "remote" => ran(true, "origin\n"),
            _ => ran(true, ""),
        },
    );
    assert!(r.ok().unwrap().is_empty());
}

#[test]
fn command_builders() {
    let (_, asked) = drive(|rs| reset_tree("/t", "refs/heads/main", rs), |_| ran(true, ""));
    assert_eq!(asked, vec!["checkout --detach refs/heads/main", "reset --hard"]);
    let (r, asked) = drive(|rs| reset_tree("/t", "x", rs), |_| ran(false, ""));
    assert!(r.is_err());
    assert_eq!(asked.len(), 1);
    let (_, asked) = drive(|rs| create_and_checkout_branch("/t", "f", rs), |_| ran(true, ""));
    assert_eq!(asked, vec!["checkout -b f"]);
    let (_, asked) = drive(|rs| checkout_branch("/t", "f", rs), |_| ran(true, ""));
    assert_eq!(asked, vec!["checkout f"]);
    let (_, asked) = drive(|rs| rename_remote("/t", "origin", "local", rs), |_| ran(true, ""));
    assert_eq!(asked, vec!["remote rename origin local"]);
    let (_, asked) = drive(|rs| add_remote("/t", "upstream", "https://example.com/repo.git", rs), |_| ran(true, ""));
    assert_eq!(asked, vec!["remote add upstream https://example.com/repo.git"]);
    let (_, asked) = drive(|rs| fetch_remote("/t", "origin", rs), |_| ran(true, ""));
    assert_eq!(asked, vec!["fetch origin"]);
}

#[test]
fn clone_runs_from_source_parent() {
    let step = clone_local("/src/repo", "/pool/1/repo", &vec![]);
    match step {
        GitStep::Run(c) => {
            assert_eq!(c.dir, "/src");
            assert_eq!(c.args.join(" "), "clone --local /src/repo /pool/1/repo");
            assert!(!c.status_only);
        }
        GitStep::Done(_) => panic!("expected a command"),
    }
}

#[test]
fn git_error_messages() {
    assert_eq!(GitError::Spawn.message(), "failed to run git");
    let e = GitError::Failed { command: "fetch local".to_string(), stderr: "boom".to_string() };
    assert_eq!(e.message(), "git fetch local: boom");
    let e = GitError::NoRef { branch: "main".to_string() };
    assert_eq!(e.message(), "neither local nor remote ref found for branch main");
    assert!(GitError::NoDefaultBranch.message().starts_with("could not determine default branch"));
}

#[test]
fn local_ref_of_branch() {
    assert_eq!(tree_pool::git::local_ref_name("main"), "refs/heads/main");
}
