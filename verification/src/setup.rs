//! Preparing the tree that `tp get` hands out.
//!
//! A reused tree is refreshed from both remotes, reset to the newest ref of
//! the source's default branch and put on the requested branch. A new tree
//! is a local clone of the source whose `origin` is renamed `local`; the
//! source's own `origin`, when it has one, is added as `origin`.
//!
//! Both are step machines: a stage names the next task, and the outcome of
//! that task moves the stage on. The caller performs the tasks; a failed
//! task other than a fetch ends the setup.
use vstd::prelude::*;

use crate::git::own;
use crate::paths::{parent, parent_of};
use crate::text::{chars_of, string_of};

verus! {

/// A piece of work on the file system or with git.
pub enum SetupTask {
    /// Create the directory and its missing parents.
    MakeDir { path: String },
    /// Clone the repository at `source` into `dest` with `git clone --local`.
    Clone { source: String, dest: String },
    /// Fetch `remote` in `dir`; when this fails, the setup goes on.
    Fetch { dir: String, remote: String },
    /// Whether `dir` has a remote named `remote`.
    HasRemote { dir: String, remote: String },
    /// Rename the remote `from` of `dir` to `to`.
    RenameRemote { dir: String, from: String, to: String },
    /// The URL of `origin` in `dir`, if it has one.
    RemoteUrl { dir: String },
    /// Add the remote `name` with `url` to `dir`.
    AddRemote { dir: String, name: String, url: String },
    /// The default branch of `dir`.
    DefaultBranch { dir: String },
    /// The ref a reset of `dir` to `branch` should use.
    BranchRef { dir: String, branch: String },
    /// Reset the tracked files of `dir` to `target`, detached.
    Reset { dir: String, target: String },
    /// Check out `branch` in `dir`, creating it first when `create` holds.
    Checkout { dir: String, branch: String, create: bool },
}

/// Spec view of a `SetupTask`.
pub enum Task {
    MakeDir { path: Seq<char> },
    Clone { source: Seq<char>, dest: Seq<char> },
    Fetch { dir: Seq<char>, remote: Seq<char> },
    HasRemote { dir: Seq<char>, remote: Seq<char> },
    RenameRemote { dir: Seq<char>, from: Seq<char>, to: Seq<char> },
    RemoteUrl { dir: Seq<char> },
    AddRemote { dir: Seq<char>, name: Seq<char>, url: Seq<char> },
    DefaultBranch { dir: Seq<char> },
    BranchRef { dir: Seq<char>, branch: Seq<char> },
    Reset { dir: Seq<char>, target: Seq<char> },
    Checkout { dir: Seq<char>, branch: Seq<char>, create: bool },
}

impl View for SetupTask {
    type V = Task;

    open spec fn view(&self) -> Task {
        match self {
            SetupTask::MakeDir { path } => Task::MakeDir { path: path@ },
            SetupTask::Clone { source, dest } => Task::Clone { source: source@, dest: dest@ },
            SetupTask::Fetch { dir, remote } => Task::Fetch { dir: dir@, remote: remote@ },
            SetupTask::HasRemote { dir, remote } => Task::HasRemote { dir: dir@, remote: remote@ },
            SetupTask::RenameRemote { dir, from, to } => Task::RenameRemote {
                dir: dir@,
                from: from@,
                to: to@,
            },
            SetupTask::RemoteUrl { dir } => Task::RemoteUrl { dir: dir@ },
            SetupTask::AddRemote { dir, name, url } => Task::AddRemote {
                dir: dir@,
                name: name@,
                url: url@,
            },
            SetupTask::DefaultBranch { dir } => Task::DefaultBranch { dir: dir@ },
            SetupTask::BranchRef { dir, branch } => Task::BranchRef { dir: dir@, branch: branch@ },
            SetupTask::Reset { dir, target } => Task::Reset { dir: dir@, target: target@ },
            SetupTask::Checkout { dir, branch, create } => Task::Checkout {
                dir: dir@,
                branch: branch@,
                create: *create,
            },
        }
    }
}

/// The view of an optional task.
pub open spec fn task_view(t: Option<SetupTask>) -> Option<Task> {
    match t {
        Some(t) => Some(t@),
        None => None,
    }
}

/// What a task gave back.
pub enum Outcome {
    /// The task is over and gave nothing (a failed fetch included).
    Finished,
    /// A yes or no.
    Flag(bool),
    /// A text.
    Text(String),
    /// A text that may be absent.
    MaybeText(Option<String>),
}

/// Where the preparation of a reused tree stands.
pub enum ReuseStage {
    FetchLocal,
    AskOrigin,
    FetchOrigin,
    AskDefault,
    AskRef { default: String },
    Reset { target: String },
    Checkout,
    Ready,
}

/// The task a reused tree `tree` needs at `stage`: fetch `local`; ask for
/// `origin` and fetch it when present; ask the source `repo_root` for its
/// default branch and the tree for the ref of that branch; reset to the ref;
/// check out `branch`, creating it when `is_new`.
pub open spec fn reuse_task(
    stage: ReuseStage,
    repo_root: Seq<char>,
    tree: Seq<char>,
    branch: Seq<char>,
    is_new: bool,
) -> Option<Task> {
    match stage {
        ReuseStage::FetchLocal => Some(Task::Fetch { dir: tree, remote: "local"@ }),
        ReuseStage::AskOrigin => Some(Task::HasRemote { dir: tree, remote: "origin"@ }),
        ReuseStage::FetchOrigin => Some(Task::Fetch { dir: tree, remote: "origin"@ }),
        ReuseStage::AskDefault => Some(Task::DefaultBranch { dir: repo_root }),
        ReuseStage::AskRef { default } => Some(Task::BranchRef { dir: tree, branch: default@ }),
        ReuseStage::Reset { target } => Some(Task::Reset { dir: tree, target: target@ }),
        ReuseStage::Checkout => Some(Task::Checkout { dir: tree, branch, create: is_new }),
        ReuseStage::Ready => None,
    }
}

/// The stage after the task of `stage` gave `outcome`. An outcome of the
/// wrong kind for a question leaves the stage as it was.
pub open spec fn reuse_next(stage: ReuseStage, outcome: Outcome) -> ReuseStage {
    match stage {
        ReuseStage::FetchLocal => ReuseStage::AskOrigin,
        ReuseStage::AskOrigin => match outcome {
            Outcome::Flag(true) => ReuseStage::FetchOrigin,
            Outcome::Flag(false) => ReuseStage::AskDefault,
            _ => stage,
        },
        ReuseStage::FetchOrigin => ReuseStage::AskDefault,
        ReuseStage::AskDefault => match outcome {
            Outcome::Text(d) => ReuseStage::AskRef { default: d },
            _ => stage,
        },
        ReuseStage::AskRef { .. } => match outcome {
            Outcome::Text(r) => ReuseStage::Reset { target: r },
            _ => stage,
        },
        ReuseStage::Reset { .. } => ReuseStage::Checkout,
        ReuseStage::Checkout => ReuseStage::Ready,
        ReuseStage::Ready => stage,
    }
}

/// The first task of a reused tree.
pub fn reuse_start() -> (s: ReuseStage)
    ensures
        s is FetchLocal,
{
    ReuseStage::FetchLocal
}

/// The task the reused tree `tree` needs now; `None` once it is ready.
pub fn reuse_step(stage: &ReuseStage, repo_root: &str, tree: &str, branch: &str, is_new: bool) -> (t:
    Option<SetupTask>)
    ensures
        task_view(t) == reuse_task(*stage, repo_root@, tree@, branch@, is_new),
{
    match stage {
        ReuseStage::FetchLocal => Some(SetupTask::Fetch { dir: own(tree), remote: own("local") }),
        ReuseStage::AskOrigin => Some(
            SetupTask::HasRemote { dir: own(tree), remote: own("origin") },
        ),
        ReuseStage::FetchOrigin => Some(SetupTask::Fetch { dir: own(tree), remote: own("origin") }),
        ReuseStage::AskDefault => Some(SetupTask::DefaultBranch { dir: own(repo_root) }),
        ReuseStage::AskRef { default } => Some(
            SetupTask::BranchRef { dir: own(tree), branch: own(default.as_str()) },
        ),
        ReuseStage::Reset { target } => Some(
            SetupTask::Reset { dir: own(tree), target: own(target.as_str()) },
        ),
        ReuseStage::Checkout => Some(
            SetupTask::Checkout { dir: own(tree), branch: own(branch), create: is_new },
        ),
        ReuseStage::Ready => None,
    }
}

/// The stage that follows `stage` once its task gave `outcome`.
pub fn reuse_advance(stage: ReuseStage, outcome: Outcome) -> (s: ReuseStage)
    ensures
        s == reuse_next(stage, outcome),
{
    match stage {
        ReuseStage::FetchLocal => ReuseStage::AskOrigin,
        ReuseStage::AskOrigin => match outcome {
            Outcome::Flag(true) => ReuseStage::FetchOrigin,
            Outcome::Flag(false) => ReuseStage::AskDefault,
            _ => ReuseStage::AskOrigin,
        },
        ReuseStage::FetchOrigin => ReuseStage::AskDefault,
        ReuseStage::AskDefault => match outcome {
            Outcome::Text(d) => ReuseStage::AskRef { default: d },
            _ => ReuseStage::AskDefault,
        },
        ReuseStage::AskRef { default } => match outcome {
            Outcome::Text(r) => ReuseStage::Reset { target: r },
            _ => ReuseStage::AskRef { default },
        },
        ReuseStage::Reset { .. } => ReuseStage::Checkout,
        ReuseStage::Checkout => ReuseStage::Ready,
        ReuseStage::Ready => ReuseStage::Ready,
    }
}

/// Where the making of a new tree stands.
pub enum CreateStage {
    MakeDir { path: String },
    Clone,
    RenameOrigin,
    AskUrl,
    AddOrigin { url: String },
    FetchOrigin,
    Checkout,
    Ready,
}

/// The task a new tree `dest` cloned from `repo_root` needs at `stage`: make
/// its parent directory; clone; rename `origin` to `local`; ask the source for
/// its `origin` URL and, when it has one, add it as `origin` and fetch it;
/// check out `branch`, creating it when `is_new`.
pub open spec fn create_task(
    stage: CreateStage,
    repo_root: Seq<char>,
    dest: Seq<char>,
    branch: Seq<char>,
    is_new: bool,
) -> Option<Task> {
    match stage {
        CreateStage::MakeDir { path } => Some(Task::MakeDir { path: path@ }),
        CreateStage::Clone => Some(Task::Clone { source: repo_root, dest }),
        CreateStage::RenameOrigin => Some(
            Task::RenameRemote { dir: dest, from: "origin"@, to: "local"@ },
        ),
        CreateStage::AskUrl => Some(Task::RemoteUrl { dir: repo_root }),
        CreateStage::AddOrigin { url } => Some(
            Task::AddRemote { dir: dest, name: "origin"@, url: url@ },
        ),
        CreateStage::FetchOrigin => Some(Task::Fetch { dir: dest, remote: "origin"@ }),
        CreateStage::Checkout => Some(Task::Checkout { dir: dest, branch, create: is_new }),
        CreateStage::Ready => None,
    }
}

/// The stage after the task of `stage` gave `outcome`. An outcome of the
/// wrong kind for a question leaves the stage as it was.
pub open spec fn create_next(stage: CreateStage, outcome: Outcome) -> CreateStage {
    match stage {
        CreateStage::MakeDir { .. } => CreateStage::Clone,
        CreateStage::Clone => CreateStage::RenameOrigin,
        CreateStage::RenameOrigin => CreateStage::AskUrl,
        CreateStage::AskUrl => match outcome {
            Outcome::MaybeText(Some(u)) => CreateStage::AddOrigin { url: u },
            Outcome::MaybeText(None) => CreateStage::Checkout,
            _ => stage,
        },
        CreateStage::AddOrigin { .. } => CreateStage::FetchOrigin,
        CreateStage::FetchOrigin => CreateStage::Checkout,
        CreateStage::Checkout => CreateStage::Ready,
        CreateStage::Ready => stage,
    }
}

/// The first stage of a new tree at `dest`: its parent directory is made
/// first, when it has one.
pub fn create_start(dest: &str) -> (s: CreateStage)
    ensures
        match parent(dest@) {
            Some(p) => s matches CreateStage::MakeDir { path } && path@ == p,
            None => s is Clone,
        },
{
    match parent_of(&chars_of(dest)) {
        Some(p) => CreateStage::MakeDir { path: string_of(&p) },
        None => CreateStage::Clone,
    }
}

/// The task the new tree `dest` needs now; `None` once it is ready.
pub fn create_step(stage: &CreateStage, repo_root: &str, dest: &str, branch: &str, is_new: bool) -> (t:
    Option<SetupTask>)
    ensures
        task_view(t) == create_task(*stage, repo_root@, dest@, branch@, is_new),
{
    match stage {
        CreateStage::MakeDir { path } => Some(SetupTask::MakeDir { path: own(path.as_str()) }),
        CreateStage::Clone => Some(SetupTask::Clone { source: own(repo_root), dest: own(dest) }),
        CreateStage::RenameOrigin => Some(
            SetupTask::RenameRemote { dir: own(dest), from: own("origin"), to: own("local") },
        ),
        CreateStage::AskUrl => Some(SetupTask::RemoteUrl { dir: own(repo_root) }),
        CreateStage::AddOrigin { url } => Some(
            SetupTask::AddRemote { dir: own(dest), name: own("origin"), url: own(url.as_str()) },
        ),
        CreateStage::FetchOrigin => Some(SetupTask::Fetch { dir: own(dest), remote: own("origin") }),
        CreateStage::Checkout => Some(
            SetupTask::Checkout { dir: own(dest), branch: own(branch), create: is_new },
        ),
        CreateStage::Ready => None,
    }
}

/// The stage that follows `stage` once its task gave `outcome`.
pub fn create_advance(stage: CreateStage, outcome: Outcome) -> (s: CreateStage)
    ensures
        s == create_next(stage, outcome),
{
    match stage {
        CreateStage::MakeDir { .. } => CreateStage::Clone,
        CreateStage::Clone => CreateStage::RenameOrigin,
        CreateStage::RenameOrigin => CreateStage::AskUrl,
        CreateStage::AskUrl => match outcome {
            Outcome::MaybeText(Some(u)) => CreateStage::AddOrigin { url: u },
            Outcome::MaybeText(None) => CreateStage::Checkout,
            _ => CreateStage::AskUrl,
        },
        CreateStage::AddOrigin { .. } => CreateStage::FetchOrigin,
        CreateStage::FetchOrigin => CreateStage::Checkout,
        CreateStage::Checkout => CreateStage::Ready,
        CreateStage::Ready => CreateStage::Ready,
    }
}

/// The answer a reused tree's run receives at `stage`: whether `origin`
/// exists, the default branch, the ref; every other task just finishes.
pub open spec fn reuse_answer(
    stage: ReuseStage,
    has_origin: bool,
    default: String,
    reference: String,
) -> Outcome {
    match stage {
        ReuseStage::AskOrigin => Outcome::Flag(has_origin),
        ReuseStage::AskDefault => Outcome::Text(default),
        ReuseStage::AskRef { .. } => Outcome::Text(reference),
        _ => Outcome::Finished,
    }
}

/// The tasks a reused tree's run issues from `stage` on, at most `fuel` of
/// them, given those answers.
pub open spec fn reuse_tasks(
    stage: ReuseStage,
    repo_root: Seq<char>,
    tree: Seq<char>,
    branch: Seq<char>,
    is_new: bool,
    has_origin: bool,
    default: String,
    reference: String,
    fuel: nat,
) -> Seq<Task>
    decreases fuel,
{
    if fuel == 0 {
        Seq::empty()
    } else {
        match reuse_task(stage, repo_root, tree, branch, is_new) {
            None => Seq::empty(),
            Some(t) => seq![t] + reuse_tasks(
                reuse_next(stage, reuse_answer(stage, has_origin, default, reference)),
                repo_root,
                tree,
                branch,
                is_new,
                has_origin,
                default,
                reference,
                (fuel - 1) as nat,
            ),
        }
    }
}

/// A reused tree is fetched from `local`, then from `origin` when it has
/// one; it is reset to the ref chosen for the source's default branch and
/// then put on the requested branch, which is created when it is new. No
/// other task is issued, and the run then ends.
pub proof fn law_reuse_plan(
    repo_root: Seq<char>,
    tree: Seq<char>,
    branch: Seq<char>,
    is_new: bool,
    has_origin: bool,
    default: String,
    reference: String,
)
    ensures
        reuse_tasks(
            ReuseStage::FetchLocal,
            repo_root,
            tree,
            branch,
            is_new,
            has_origin,
            default,
            reference,
            9,
        ) == seq![
            Task::Fetch { dir: tree, remote: "local"@ },
            Task::HasRemote { dir: tree, remote: "origin"@ },
        ] + (if has_origin {
            seq![Task::Fetch { dir: tree, remote: "origin"@ }]
        } else {
            Seq::empty()
        }) + seq![
            Task::DefaultBranch { dir: repo_root },
            Task::BranchRef { dir: tree, branch: default@ },
            Task::Reset { dir: tree, target: reference@ },
            Task::Checkout { dir: tree, branch, create: is_new },
        ],
{
    reveal_with_fuel(reuse_tasks, 10);
    let tail = reuse_tasks(
        ReuseStage::AskDefault,
        repo_root,
        tree,
        branch,
        is_new,
        has_origin,
        default,
        reference,
        if has_origin { 6 } else { 7 },
    );
    assert(tail =~= seq![
        Task::DefaultBranch { dir: repo_root },
        Task::BranchRef { dir: tree, branch: default@ },
        Task::Reset { dir: tree, target: reference@ },
        Task::Checkout { dir: tree, branch, create: is_new },
    ]);
    if has_origin {
        assert(reuse_tasks(
            ReuseStage::FetchOrigin,
            repo_root,
            tree,
            branch,
            is_new,
            has_origin,
            default,
            reference,
            7,
        ) =~= seq![Task::Fetch { dir: tree, remote: "origin"@ }] + tail);
    }
}

/// The answer a new tree's run receives at `stage`: the source's `origin`
/// URL when asked for it; every other task just finishes.
pub open spec fn create_answer(stage: CreateStage, url: Option<String>) -> Outcome {
    match stage {
        CreateStage::AskUrl => Outcome::MaybeText(url),
        _ => Outcome::Finished,
    }
}

/// The tasks a new tree's run issues from `stage` on, at most `fuel` of them,
/// given the source's `origin` URL.
pub open spec fn create_tasks(
    stage: CreateStage,
    repo_root: Seq<char>,
    dest: Seq<char>,
    branch: Seq<char>,
    is_new: bool,
    url: Option<String>,
    fuel: nat,
) -> Seq<Task>
    decreases fuel,
{
    if fuel == 0 {
        Seq::empty()
    } else {
        match create_task(stage, repo_root, dest, branch, is_new) {
            None => Seq::empty(),
            Some(t) => seq![t] + create_tasks(
                create_next(stage, create_answer(stage, url)),
                repo_root,
                dest,
                branch,
                is_new,
                url,
                (fuel - 1) as nat,
            ),
        }
    }
}

/// A new tree's parent directory is made when it has one; the source is
/// cloned into it locally; the clone's `origin` (the source) is renamed
/// `local`; the source's own `origin` URL, when it has one, is added to the
/// clone as `origin` and fetched; the requested branch is checked out,
/// created when it is new. No other task is issued, and the run then ends.
pub proof fn law_create_plan(
    first: CreateStage,
    repo_root: Seq<char>,
    dest: Seq<char>,
    branch: Seq<char>,
    is_new: bool,
    url: Option<String>,
)
    requires
        match parent(dest) {
            Some(p) => first matches CreateStage::MakeDir { path } && path@ == p,
            None => first is Clone,
        },
    ensures
        create_tasks(first, repo_root, dest, branch, is_new, url, 9) == (match parent(dest) {
            Some(p) => seq![Task::MakeDir { path: p }],
            None => Seq::empty(),
        }) + seq![
            Task::Clone { source: repo_root, dest },
            Task::RenameRemote { dir: dest, from: "origin"@, to: "local"@ },
            Task::RemoteUrl { dir: repo_root },
        ] + (match url {
            Some(u) => seq![
                Task::AddRemote { dir: dest, name: "origin"@, url: u@ },
                Task::Fetch { dir: dest, remote: "origin"@ },
            ],
            None => Seq::empty(),
        }) + seq![Task::Checkout { dir: dest, branch, create: is_new }],
{
    reveal_with_fuel(create_tasks, 10);
    let last = seq![Task::Checkout { dir: dest, branch, create: is_new }];
    let from_url = create_tasks(CreateStage::AskUrl, repo_root, dest, branch, is_new, url, 6);
    match url {
        Some(u) => {
            assert(create_tasks(CreateStage::Checkout, repo_root, dest, branch, is_new, url, 3)
                =~= last);
            assert(from_url =~= seq![
                Task::RemoteUrl { dir: repo_root },
                Task::AddRemote { dir: dest, name: "origin"@, url: u@ },
                Task::Fetch { dir: dest, remote: "origin"@ },
            ] + last);
        },
        None => {
            assert(from_url =~= seq![Task::RemoteUrl { dir: repo_root }] + last);
        },
    }
    let from_clone = create_tasks(CreateStage::Clone, repo_root, dest, branch, is_new, url, 8);
    assert(from_clone =~= seq![
        Task::Clone { source: repo_root, dest },
        Task::RenameRemote { dir: dest, from: "origin"@, to: "local"@ },
    ] + from_url);
}

} // verus!
