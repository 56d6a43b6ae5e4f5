//! The conversation with `git`.
//!
//! Every operation here decides which git command to run next and what the
//! replies mean; the caller runs the commands. An operation is a function of
//! the replies received so far: called with the replies to the commands it
//! asked for, it either asks for one more command (`GitStep::Run`) or gives its
//! result (`GitStep::Done`). Each contract states that step exactly, over the
//! spec-level views `Invocation`, `Reply`, `Fault` and `Step`.
use vstd::prelude::*;

use crate::paths::{parent, parent_of};
use crate::text::{
    chars_of, contains_chars, contains_infix, has_infix, join, join_chars, lines, lines_of,
    concat, same_chars, slice_chars, string_of, strip_prefix, trim, trim_chars, trim_str, views,
};

verus! {

/// A git command: the directory it runs in, its arguments, and whether only
/// its exit status is wanted (its output then goes nowhere).
pub struct GitCommand {
    pub dir: String,
    pub args: Vec<String>,
    pub status_only: bool,
}

/// What came back from running a git command.
pub enum GitReply {
    /// git ran; `stdout` and `stderr` are its output streams as text.
    Ran { success: bool, stdout: String, stderr: String },
    /// git could not be started.
    Unavailable,
}

/// Why a git operation failed.
pub enum GitError {
    /// git could not be started.
    Spawn,
    /// git exited unsuccessfully; `command` is its arguments joined by spaces
    /// and `stderr` its trimmed error output.
    Failed { command: String, stderr: String },
    /// Neither a local nor a remote ref exists for the branch.
    NoRef { branch: String },
    /// No default branch could be determined.
    NoDefaultBranch,
}

/// The next move of a git operation.
pub enum GitStep<T> {
    Run(GitCommand),
    Done(Result<T, GitError>),
}

/// Spec view of a `GitCommand`.
pub struct Invocation {
    pub dir: Seq<char>,
    pub args: Seq<Seq<char>>,
    pub status_only: bool,
}

/// Spec view of a `GitReply`.
pub enum Reply {
    Ran { success: bool, stdout: Seq<char>, stderr: Seq<char> },
    Unavailable,
}

/// Spec view of a `GitError`.
pub enum Fault {
    Spawn,
    Failed { command: Seq<char>, stderr: Seq<char> },
    NoRef { branch: Seq<char> },
    NoDefaultBranch,
}

/// Spec view of a `GitStep`.
pub enum Step<T> {
    Run(Invocation),
    Done(Result<T, Fault>),
}

/// The texts held by a vector of strings.
pub open spec fn texts(v: Seq<String>) -> Seq<Seq<char>> {
    v.map_values(|s: String| s@)
}

impl View for GitCommand {
    type V = Invocation;

    open spec fn view(&self) -> Invocation {
        Invocation { dir: self.dir@, args: texts(self.args@), status_only: self.status_only }
    }
}

impl View for GitReply {
    type V = Reply;

    open spec fn view(&self) -> Reply {
        match self {
            GitReply::Ran { success, stdout, stderr } => Reply::Ran {
                success: *success,
                stdout: stdout@,
                stderr: stderr@,
            },
            GitReply::Unavailable => Reply::Unavailable,
        }
    }
}

impl View for GitError {
    type V = Fault;

    open spec fn view(&self) -> Fault {
        match self {
            GitError::Spawn => Fault::Spawn,
            GitError::Failed { command, stderr } => Fault::Failed {
                command: command@,
                stderr: stderr@,
            },
            GitError::NoRef { branch } => Fault::NoRef { branch: branch@ },
            GitError::NoDefaultBranch => Fault::NoDefaultBranch,
        }
    }
}

/// The message that reports a failure.
pub open spec fn fault_text(f: Fault) -> Seq<char> {
    match f {
        Fault::Spawn => "failed to run git"@,
        Fault::Failed { command, stderr } => "git "@ + command + ": "@ + stderr,
        Fault::NoRef { branch } => "neither local nor remote ref found for branch "@ + branch,
        Fault::NoDefaultBranch => NO_DEFAULT_BRANCH@,
    }
}

pub const NO_DEFAULT_BRANCH: &'static str = "could not determine default branch — try running: git remote set-head origin --auto";

impl GitError {
    /// The message that reports this failure.
    pub fn message(&self) -> (m: String)
        ensures
            m@ == fault_text(self@),
    {
        match self {
            GitError::Spawn => "failed to run git".to_string(),
            GitError::Failed { command, stderr } => {
                let head = concat(&chars_of("git "), &chars_of(command.as_str()));
                let mid = concat(&head, &chars_of(": "));
                string_of(&concat(&mid, &chars_of(stderr.as_str())))
            },
            GitError::NoRef { branch } => string_of(
                &concat(
                    &chars_of("neither local nor remote ref found for branch "),
                    &chars_of(branch.as_str()),
                ),
            ),
            GitError::NoDefaultBranch => NO_DEFAULT_BRANCH.to_string(),
        }
    }
}

/// The view of an operation's result.
pub open spec fn result_view<T: DeepView>(r: Result<T, GitError>) -> Result<T::V, Fault> {
    match r {
        Ok(t) => Ok(t.deep_view()),
        Err(e) => Err(e@),
    }
}

impl<T: DeepView> View for GitStep<T> {
    type V = Step<T::V>;

    open spec fn view(&self) -> Step<T::V> {
        match self {
            GitStep::Run(c) => Step::Run(c@),
            GitStep::Done(r) => Step::Done(result_view(*r)),
        }
    }
}

/// The views of the replies received so far.
pub open spec fn replies_view(v: Seq<GitReply>) -> Seq<Reply> {
    v.map_values(|r: GitReply| r@)
}

/// A command whose output is wanted.
pub open spec fn query(dir: Seq<char>, args: Seq<Seq<char>>) -> Invocation {
    Invocation { dir, args, status_only: false }
}

/// A command whose exit status alone is wanted.
pub open spec fn probe(dir: Seq<char>, args: Seq<Seq<char>>) -> Invocation {
    Invocation { dir, args, status_only: true }
}

/// What a reply to a command with arguments `args` yields when its output is
/// wanted: the trimmed standard output on success, else the failure.
pub open spec fn output(args: Seq<Seq<char>>, r: Reply) -> Result<Seq<char>, Fault> {
    match r {
        Reply::Unavailable => Err(Fault::Spawn),
        Reply::Ran { success, stdout, stderr } => if success {
            Ok(trim(stdout))
        } else {
            Err(Fault::Failed { command: join(args, seq![' ']), stderr: trim(stderr) })
        },
    }
}

/// What a reply yields when only the exit status is wanted.
pub open spec fn status(r: Reply) -> Result<bool, Fault> {
    match r {
        Reply::Unavailable => Err(Fault::Spawn),
        Reply::Ran { success, .. } => Ok(success),
    }
}

/// One command, whose output `f` turns into the result.
pub open spec fn single<T>(
    dir: Seq<char>,
    args: Seq<Seq<char>>,
    replies: Seq<Reply>,
    f: spec_fn(Seq<char>) -> T,
) -> Step<T> {
    if replies.len() == 0 {
        Step::Run(query(dir, args))
    } else {
        match output(args, replies[0]) {
            Ok(o) => Step::Done(Ok(f(o))),
            Err(e) => Step::Done(Err(e)),
        }
    }
}

pub fn own(s: &str) -> (r: String)
    ensures
        r@ == s@,
{
    s.to_owned()
}

fn texts_of_push(v: &mut Vec<String>, s: String)
    ensures
        texts(final(v)@) == texts(old(v)@).push(s@),
{
    let ghost before = v@;
    v.push(s);
    assert(texts(v@) =~= texts(before).push(s@));
}

fn args1(a: &str) -> (v: Vec<String>)
    ensures
        texts(v@) == seq![a@],
{
    let mut v: Vec<String> = Vec::new();
    texts_of_push(&mut v, own(a));
    assert(texts(v@) =~= seq![a@]);
    v
}

fn args2(a: &str, b: &str) -> (v: Vec<String>)
    ensures
        texts(v@) == seq![a@, b@],
{
    let mut v = args1(a);
    texts_of_push(&mut v, own(b));
    assert(texts(v@) =~= seq![a@, b@]);
    v
}

fn args3(a: &str, b: &str, c: &str) -> (v: Vec<String>)
    ensures
        texts(v@) == seq![a@, b@, c@],
{
    let mut v = args2(a, b);
    texts_of_push(&mut v, own(c));
    assert(texts(v@) =~= seq![a@, b@, c@]);
    v
}

fn args4(a: &str, b: &str, c: &str, d: &str) -> (v: Vec<String>)
    ensures
        texts(v@) == seq![a@, b@, c@, d@],
{
    let mut v = args3(a, b, c);
    texts_of_push(&mut v, own(d));
    assert(texts(v@) =~= seq![a@, b@, c@, d@]);
    v
}

fn command(dir: &str, args: Vec<String>, status_only: bool) -> (c: GitCommand)
    ensures
        c@ == (Invocation { dir: dir@, args: texts(args@), status_only }),
{
    GitCommand { dir: own(dir), args, status_only }
}

/// The characters of each string, in order.
pub fn chars_of_all(v: &Vec<String>) -> (r: Vec<Vec<char>>)
    ensures
        views(r@) == texts(v@),
{
    let mut r: Vec<Vec<char>> = Vec::new();
    let mut i: usize = 0;
    while i < v.len()
        invariant
            i <= v.len(),
            r@.len() == i,
            views(r@) == texts(v@).take(i as int),
        decreases v.len() - i,
    {
        let ghost before = r@;
        let c = chars_of(v[i].as_str());
        r.push(c);
        assert forall|k: int| 0 <= k < i + 1 implies #[trigger] views(r@)[k] == texts(v@).take(
            i + 1,
        )[k] by {
            if k < i {
                assert(views(before)[k] == texts(v@).take(i as int)[k]);
            }
        }
        assert(views(r@) =~= texts(v@).take(i + 1));
        i = i + 1;
    }
    assert(texts(v@).take(v.len() as int) =~= texts(v@));
    r
}

/// The strings made of each character sequence, in order.
pub fn strings_of_all(v: &Vec<Vec<char>>) -> (r: Vec<String>)
    ensures
        texts(r@) == views(v@),
{
    let mut r: Vec<String> = Vec::new();
    let mut i: usize = 0;
    while i < v.len()
        invariant
            i <= v.len(),
            r@.len() == i,
            texts(r@) == views(v@).take(i as int),
        decreases v.len() - i,
    {
        let ghost before = r@;
        let c = string_of(&v[i]);
        r.push(c);
        assert forall|k: int| 0 <= k < i + 1 implies #[trigger] texts(r@)[k] == views(v@).take(
            i + 1,
        )[k] by {
            if k < i {
                assert(texts(before)[k] == views(v@).take(i as int)[k]);
            }
        }
        assert(texts(r@) =~= views(v@).take(i + 1));
        i = i + 1;
    }
    assert(views(v@).take(v.len() as int) =~= views(v@));
    r
}

/// What a reply yields when the command's output is wanted (see `output`).
pub fn reply_output(args: &Vec<String>, reply: &GitReply) -> (r: Result<Vec<char>, GitError>)
    ensures
        match (output(texts(args@), reply@), r) {
            (Ok(o), Ok(t)) => t@ == o,
            (Err(f), Err(e)) => e@ == f,
            _ => false,
        },
{
    match reply {
        GitReply::Unavailable => Err(GitError::Spawn),
        GitReply::Ran { success, stdout, stderr } => {
            if *success {
                Ok(trim_str(stdout.as_str()))
            } else {
                let parts = chars_of_all(args);
                let mut sep: Vec<char> = Vec::new();
                sep.push(' ');
                assert(sep@ =~= seq![' ']);
                let command = join_chars(&parts, &sep);
                let err = trim_str(stderr.as_str());
                Err(GitError::Failed { command: string_of(&command), stderr: string_of(&err) })
            }
        },
    }
}

/// What a reply yields when only the exit status is wanted (see `status`).
pub fn reply_status(reply: &GitReply) -> (r: Result<bool, GitError>)
    ensures
        match (status(reply@), r) {
            (Ok(o), Ok(t)) => t == o,
            (Err(f), Err(e)) => e@ == f,
            _ => false,
        },
{
    match reply {
        GitReply::Unavailable => Err(GitError::Spawn),
        GitReply::Ran { success, .. } => Ok(*success),
    }
}


fn done_with<T>(r: Result<T, GitError>) -> (s: GitStep<T>)
    ensures
        s == GitStep::Done(r),
{
    GitStep::Done(r)
}

/// The top directory of the work tree that `dir` lies in.
pub open spec fn repo_root_step(dir: Seq<char>, replies: Seq<Reply>) -> Step<Seq<char>> {
    single(dir, seq!["rev-parse"@, "--show-toplevel"@], replies, |o: Seq<char>| o)
}

/// The top directory of the work tree (`git rev-parse --show-toplevel`).
pub fn repo_root(dir: &str, replies: &Vec<GitReply>) -> (s: GitStep<String>)
    ensures
        s@ == repo_root_step(dir@, replies_view(replies@)),
{
    let args = args2("rev-parse", "--show-toplevel");
    if replies.len() == 0 {
        return GitStep::Run(command(dir, args, false));
    }
    match reply_output(&args, &replies[0]) {
        Ok(o) => done_with(Ok(string_of(&o))),
        Err(e) => done_with(Err(e)),
    }
}

/// The work tree has changes: `git status --porcelain` printed something.
pub open spec fn is_dirty_step(repo: Seq<char>, replies: Seq<Reply>) -> Step<bool> {
    single(repo, seq!["status"@, "--porcelain"@], replies, |o: Seq<char>| o.len() > 0)
}

/// Whether the work tree has uncommitted changes or untracked files.
pub fn is_dirty(repo: &str, replies: &Vec<GitReply>) -> (s: GitStep<bool>)
    ensures
        s@ == is_dirty_step(repo@, replies_view(replies@)),
{
    let args = args2("status", "--porcelain");
    if replies.len() == 0 {
        return GitStep::Run(command(repo, args, false));
    }
    match reply_output(&args, &replies[0]) {
        Ok(o) => done_with(Ok(o.len() > 0)),
        Err(e) => done_with(Err(e)),
    }
}

/// The checked-out branch, or `None` for a detached `HEAD`.
pub open spec fn current_branch_step(repo: Seq<char>, replies: Seq<Reply>) -> Step<
    Option<Seq<char>>,
> {
    single(
        repo,
        seq!["rev-parse"@, "--abbrev-ref"@, "HEAD"@],
        replies,
        |o: Seq<char>|
            if o == "HEAD"@ {
                None
            } else {
                Some(o)
            },
    )
}

/// The current branch of a tree, or `None` when `HEAD` is detached.
pub fn current_branch(repo: &str, replies: &Vec<GitReply>) -> (s: GitStep<Option<String>>)
    ensures
        s@ == current_branch_step(repo@, replies_view(replies@)),
{
    let args = args3("rev-parse", "--abbrev-ref", "HEAD");
    if replies.len() == 0 {
        return GitStep::Run(command(repo, args, false));
    }
    match reply_output(&args, &replies[0]) {
        Ok(o) => {
            let head = chars_of("HEAD");
            if same_chars(&o, &head) {
                done_with(Ok(None))
            } else {
                done_with(Ok(Some(string_of(&o))))
            }
        },
        Err(e) => done_with(Err(e)),
    }
}

/// A remote called `name` is configured: some line of `git remote` is `name`.
pub open spec fn has_remote_step(repo: Seq<char>, name: Seq<char>, replies: Seq<Reply>) -> Step<
    bool,
> {
    single(repo, seq!["remote"@], replies, |o: Seq<char>| lines(o).contains(name))
}

/// Whether a remote of this name exists.
pub fn has_remote(repo: &str, name: &str, replies: &Vec<GitReply>) -> (s: GitStep<bool>)
    ensures
        s@ == has_remote_step(repo@, name@, replies_view(replies@)),
{
    let args = args1("remote");
    if replies.len() == 0 {
        return GitStep::Run(command(repo, args, false));
    }
    match reply_output(&args, &replies[0]) {
        Ok(o) => {
            let ls = lines_of(&o);
            done_with(Ok(contains_chars(&ls, &chars_of(name))))
        },
        Err(e) => done_with(Err(e)),
    }
}

/// A ref name as `git branch --all` prints it, without an `origin/` prefix.
pub open spec fn strip_origin(l: Seq<char>) -> Seq<char> {
    if "origin/"@.is_prefix_of(l) {
        l.skip("origin/"@.len() as int)
    } else {
        l
    }
}

/// The branch names that lines of `git branch --all` name, in order: each line
/// trimmed, empty lines and lines naming `HEAD` left out, an `origin/` prefix
/// removed.
pub open spec fn branch_names(ls: Seq<Seq<char>>) -> Seq<Seq<char>>
    decreases ls.len(),
{
    if ls.len() == 0 {
        seq![]
    } else {
        let l = trim(ls[0]);
        let rest = branch_names(ls.drop_first());
        if l.len() == 0 || has_infix(l, "HEAD"@) {
            rest
        } else {
            seq![strip_origin(l)] + rest
        }
    }
}

/// The arguments that list all branches, newest commit first.
pub open spec fn list_branches_args() -> Seq<Seq<char>> {
    seq!["branch"@, "--all"@, "--sort=-committerdate"@, "--format=%(refname:short)"@]
}

/// Local and remote branch names, newest first, each name once, at the place
/// of its first occurrence.
pub open spec fn list_branches_step(repo: Seq<char>, replies: Seq<Reply>) -> Step<
    Seq<Seq<char>>,
> {
    single(
        repo,
        list_branches_args(),
        replies,
        |o: Seq<char>| branch_names(lines(o)).remove_duplicates(seq![]),
    )
}

fn unique_branch_names(ls: &Vec<Vec<char>>) -> (r: Vec<Vec<char>>)
    ensures
        views(r@) == branch_names(views(ls@)).remove_duplicates(seq![]),
{
    let ghost all = views(ls@);
    let head = chars_of("HEAD");
    let origin = chars_of("origin/");
    let mut res: Vec<Vec<char>> = Vec::new();
    let mut i: usize = 0;
    assert(all.skip(0) =~= all);
    assert(views(res@) =~= seq![]);
    while i < ls.len()
        invariant
            i <= ls.len(),
            all == views(ls@),
            head@ == "HEAD"@,
            origin@ == "origin/"@,
            branch_names(all).remove_duplicates(seq![]) == branch_names(all.skip(i as int))
                .remove_duplicates(views(res@)),
        decreases ls.len() - i,
    {
        let ghost tail = all.skip(i as int);
        assert(tail.drop_first() =~= all.skip(i + 1));
        assert(tail[0] == ls@[i as int]@);
        let l = trim_chars(&ls[i]);
        if l.len() == 0 || contains_infix(&l, &head) {
        } else {
            let name = match strip_prefix(&l, &origin) {
                Some(t) => t,
                None => l,
            };
            let ghost rest = branch_names(all.skip(i + 1));
            let ghost cand = seq![name@] + rest;
            assert(cand.skip(1) =~= rest);
            assert(cand[0] == name@);
            if !contains_chars(&res, &name) {
                let ghost before = views(res@);
                res.push(name);
                assert(views(res@) =~= before + seq![cand[0]]);
            }
        }
        i = i + 1;
    }
    assert(branch_names(all.skip(i as int)) =~= seq![]);
    res
}

/// Branch names sorted by most recent commit (`git branch --all`), local and
/// remote ones merged under their local name.
pub fn list_branches_by_date(repo: &str, replies: &Vec<GitReply>) -> (s: GitStep<Vec<String>>)
    ensures
        s@ == list_branches_step(repo@, replies_view(replies@)),
{
    let args = args4("branch", "--all", "--sort=-committerdate", "--format=%(refname:short)");
    if replies.len() == 0 {
        return GitStep::Run(command(repo, args, false));
    }
    match reply_output(&args, &replies[0]) {
        Ok(o) => {
            let names = unique_branch_names(&lines_of(&o));
            let r = strings_of_all(&names);
            assert(r.deep_view() =~= texts(r@));
            done_with(Ok(r))
        },
        Err(e) => done_with(Err(e)),
    }
}


fn unit_step(dir: &str, args: Vec<String>, replies: &Vec<GitReply>) -> (s: GitStep<()>)
    ensures
        s@ == single(dir@, texts(args@), replies_view(replies@), |o: Seq<char>| ()),
{
    if replies.len() == 0 {
        return GitStep::Run(command(dir, args, false));
    }
    match reply_output(&args, &replies[0]) {
        Ok(_) => done_with(Ok(())),
        Err(e) => done_with(Err(e)),
    }
}

/// `git checkout -b <branch>`.
pub open spec fn create_and_checkout_step(repo: Seq<char>, branch: Seq<char>, replies: Seq<Reply>) -> Step<()> {
    single(repo, seq!["checkout"@, "-b"@, branch], replies, |o: Seq<char>| ())
}

/// Create a new branch and check it out.
pub fn create_and_checkout_branch(repo: &str, branch: &str, replies: &Vec<GitReply>) -> (s: GitStep<()>)
    ensures
        s@ == create_and_checkout_step(repo@, branch@, replies_view(replies@)),
{
    unit_step(repo, args3("checkout", "-b", branch), replies)
}

/// `git checkout <branch>`.
pub open spec fn checkout_step(repo: Seq<char>, branch: Seq<char>, replies: Seq<Reply>) -> Step<()> {
    single(repo, seq!["checkout"@, branch], replies, |o: Seq<char>| ())
}

/// Check out an existing branch.
pub fn checkout_branch(repo: &str, branch: &str, replies: &Vec<GitReply>) -> (s: GitStep<()>)
    ensures
        s@ == checkout_step(repo@, branch@, replies_view(replies@)),
{
    unit_step(repo, args2("checkout", branch), replies)
}

/// `git remote rename <old> <new>`.
pub open spec fn rename_remote_step(repo: Seq<char>, old_name: Seq<char>, new_name: Seq<char>, replies: Seq<Reply>) -> Step<()> {
    single(repo, seq!["remote"@, "rename"@, old_name, new_name], replies, |o: Seq<char>| ())
}

/// Rename a remote.
pub fn rename_remote(repo: &str, old_name: &str, new_name: &str, replies: &Vec<GitReply>) -> (s: GitStep<()>)
    ensures
        s@ == rename_remote_step(repo@, old_name@, new_name@, replies_view(replies@)),
{
    unit_step(repo, args4("remote", "rename", old_name, new_name), replies)
}

/// `git remote add <name> <url>`.
pub open spec fn add_remote_step(repo: Seq<char>, name: Seq<char>, url: Seq<char>, replies: Seq<Reply>) -> Step<()> {
    single(repo, seq!["remote"@, "add"@, name, url], replies, |o: Seq<char>| ())
}

/// Add a new remote.
pub fn add_remote(repo: &str, name: &str, url: &str, replies: &Vec<GitReply>) -> (s: GitStep<()>)
    ensures
        s@ == add_remote_step(repo@, name@, url@, replies_view(replies@)),
{
    unit_step(repo, args4("remote", "add", name, url), replies)
}

/// `git fetch <remote>`.
pub open spec fn fetch_remote_step(repo: Seq<char>, remote: Seq<char>, replies: Seq<Reply>) -> Step<()> {
    single(repo, seq!["fetch"@, remote], replies, |o: Seq<char>| ())
}

/// Fetch from one remote.
pub fn fetch_remote(repo: &str, remote: &str, replies: &Vec<GitReply>) -> (s: GitStep<()>)
    ensures
        s@ == fetch_remote_step(repo@, remote@, replies_view(replies@)),
{
    unit_step(repo, args2("fetch", remote), replies)
}

/// `git checkout --detach <ref>`, then `git reset --hard`.
pub open spec fn reset_tree_step(tree: Seq<char>, ref_name: Seq<char>, replies: Seq<Reply>) -> Step<()> {
    let first = seq!["checkout"@, "--detach"@, ref_name];
    if replies.len() == 0 {
        Step::Run(query(tree, first))
    } else {
        match output(first, replies[0]) {
            Err(e) => Step::Done(Err(e)),
            Ok(_) => single(tree, seq!["reset"@, "--hard"@], replies.drop_first(), |o: Seq<char>| ()),
        }
    }
}

proof fn lemma_replies_rest(replies: Seq<GitReply>)
    requires
        replies.len() > 0,
    ensures
        replies_view(replies).drop_first() == replies_view(replies.drop_first()),
{
    assert(replies_view(replies).drop_first() =~= replies_view(replies.drop_first()));
}

/// Detach the tree at `ref_name` and discard changes to tracked files;
/// untracked files stay.
pub fn reset_tree(tree: &str, ref_name: &str, replies: &Vec<GitReply>) -> (s: GitStep<()>)
    ensures
        s@ == reset_tree_step(tree@, ref_name@, replies_view(replies@)),
{
    let first = args3("checkout", "--detach", ref_name);
    if replies.len() == 0 {
        return GitStep::Run(command(tree, first, false));
    }
    match reply_output(&first, &replies[0]) {
        Err(e) => done_with(Err(e)),
        Ok(_) => {
            let second = args2("reset", "--hard");
            if replies.len() == 1 {
                return GitStep::Run(command(tree, second, false));
            }
            proof {
                lemma_replies_rest(replies@);
            }
            match reply_output(&second, &replies[1]) {
                Ok(_) => done_with(Ok(())),
                Err(e) => done_with(Err(e)),
            }
        },
    }
}

/// The local ref of a branch.
pub open spec fn local_ref(branch: Seq<char>) -> Seq<char> {
    "refs/heads/"@ + branch
}

/// The local ref of a branch: `refs/heads/<branch>`, where `tp return`
/// resets a tree to.
pub fn local_ref_name(branch: &str) -> (r: String)
    ensures
        r@ == local_ref(branch@),
{
    own("refs/heads/").concat(branch)
}

/// The `origin` remote-tracking ref of a branch, fully spelled.
pub open spec fn origin_ref(branch: Seq<char>) -> Seq<char> {
    "refs/remotes/origin/"@ + branch
}

/// `git rev-parse --verify <ref>`, asked for its exit status.
pub open spec fn verify_ref(dir: Seq<char>, r: Seq<char>) -> Invocation {
    probe(dir, seq!["rev-parse"@, "--verify"@, r])
}

/// Whether the branch exists locally or on `origin`: two `rev-parse --verify`
/// probes, both always made.
pub open spec fn branch_exists_step(repo: Seq<char>, branch: Seq<char>, replies: Seq<Reply>) -> Step<bool> {
    if replies.len() == 0 {
        Step::Run(verify_ref(repo, local_ref(branch)))
    } else {
        match status(replies[0]) {
            Err(e) => Step::Done(Err(e)),
            Ok(local) => if replies.len() == 1 {
                Step::Run(verify_ref(repo, origin_ref(branch)))
            } else {
                match status(replies[1]) {
                    Err(e) => Step::Done(Err(e)),
                    Ok(remote) => Step::Done(Ok(local || remote)),
                }
            },
        }
    }
}

fn verify_command(dir: &str, r: &str) -> (c: GitCommand)
    ensures
        c@ == verify_ref(dir@, r@),
{
    command(dir, args3("rev-parse", "--verify", r), true)
}

/// Whether a branch exists locally or on `origin`.
pub fn branch_exists(repo: &str, branch: &str, replies: &Vec<GitReply>) -> (s: GitStep<bool>)
    ensures
        s@ == branch_exists_step(repo@, branch@, replies_view(replies@)),
{
    let local = own("refs/heads/").concat(branch);
    let remote = own("refs/remotes/origin/").concat(branch);
    if replies.len() == 0 {
        return GitStep::Run(verify_command(repo, local.as_str()));
    }
    match reply_status(&replies[0]) {
        Err(e) => done_with(Err(e)),
        Ok(l) => {
            if replies.len() == 1 {
                return GitStep::Run(verify_command(repo, remote.as_str()));
            }
            match reply_status(&replies[1]) {
                Err(e) => done_with(Err(e)),
                Ok(r) => done_with(Ok(l || r)),
            }
        },
    }
}


/// The output without the prefix `p`, when it was obtained and begins with `p`.
pub open spec fn prefixed(r: Result<Seq<char>, Fault>, p: Seq<char>) -> Option<Seq<char>> {
    match r {
        Ok(o) => if p.is_prefix_of(o) {
            Some(o.skip(p.len() as int))
        } else {
            None
        },
        Err(_) => None,
    }
}

/// Where `origin/HEAD` points, else the branch `HEAD` is on, else
/// `init.defaultBranch`; each tried only when the ones before gave nothing.
pub open spec fn default_branch_step(repo: Seq<char>, replies: Seq<Reply>) -> Step<Seq<char>> {
    let a1 = seq!["symbolic-ref"@, "refs/remotes/origin/HEAD"@];
    let a2 = seq!["symbolic-ref"@, "HEAD"@];
    let a3 = seq!["config"@, "init.defaultBranch"@];
    if replies.len() == 0 {
        Step::Run(query(repo, a1))
    } else if prefixed(output(a1, replies[0]), "refs/remotes/origin/"@) is Some {
        Step::Done(Ok(prefixed(output(a1, replies[0]), "refs/remotes/origin/"@)->0))
    } else if replies.len() == 1 {
        Step::Run(query(repo, a2))
    } else if prefixed(output(a2, replies[1]), "refs/heads/"@) is Some {
        Step::Done(Ok(prefixed(output(a2, replies[1]), "refs/heads/"@)->0))
    } else if replies.len() == 2 {
        Step::Run(query(repo, a3))
    } else if output(a3, replies[2]) is Ok && output(a3, replies[2])->Ok_0.len() > 0 {
        Step::Done(Ok(output(a3, replies[2])->Ok_0))
    } else {
        Step::Done(Err(Fault::NoDefaultBranch))
    }
}

/// The repository's default branch.
pub fn default_branch(repo: &str, replies: &Vec<GitReply>) -> (s: GitStep<String>)
    ensures
        s@ == default_branch_step(repo@, replies_view(replies@)),
{
    let a1 = args2("symbolic-ref", "refs/remotes/origin/HEAD");
    if replies.len() == 0 {
        return GitStep::Run(command(repo, a1, false));
    }
    if let Ok(o) = reply_output(&a1, &replies[0]) {
        if let Some(b) = strip_prefix(&o, &chars_of("refs/remotes/origin/")) {
            return done_with(Ok(string_of(&b)));
        }
    }
    let a2 = args2("symbolic-ref", "HEAD");
    if replies.len() == 1 {
        return GitStep::Run(command(repo, a2, false));
    }
    if let Ok(o) = reply_output(&a2, &replies[1]) {
        if let Some(b) = strip_prefix(&o, &chars_of("refs/heads/")) {
            return done_with(Ok(string_of(&b)));
        }
    }
    let a3 = args2("config", "init.defaultBranch");
    if replies.len() == 2 {
        return GitStep::Run(command(repo, a3, false));
    }
    if let Ok(b) = reply_output(&a3, &replies[2]) {
        if b.len() > 0 {
            return done_with(Ok(string_of(&b)));
        }
    }
    done_with(Err(GitError::NoDefaultBranch))
}

/// The URL of `origin`, or `None` when no remote has that name.
pub open spec fn remote_url_step(repo: Seq<char>, replies: Seq<Reply>) -> Step<Option<Seq<char>>> {
    let a1 = seq!["remote"@];
    if replies.len() == 0 {
        Step::Run(query(repo, a1))
    } else {
        match output(a1, replies[0]) {
            Err(e) => Step::Done(Err(e)),
            Ok(o) => if !lines(o).contains("origin"@) {
                Step::Done(Ok(None))
            } else {
                single(
                    repo,
                    seq!["remote"@, "get-url"@, "origin"@],
                    replies.drop_first(),
                    |u: Seq<char>| Some(u),
                )
            },
        }
    }
}

/// The URL of the `origin` remote, if there is one.
pub fn remote_url(repo: &str, replies: &Vec<GitReply>) -> (s: GitStep<Option<String>>)
    ensures
        s@ == remote_url_step(repo@, replies_view(replies@)),
{
    let a1 = args1("remote");
    if replies.len() == 0 {
        return GitStep::Run(command(repo, a1, false));
    }
    match reply_output(&a1, &replies[0]) {
        Err(e) => done_with(Err(e)),
        Ok(o) => {
            if !contains_chars(&lines_of(&o), &chars_of("origin")) {
                return done_with(Ok(None));
            }
            let a2 = args3("remote", "get-url", "origin");
            if replies.len() == 1 {
                return GitStep::Run(command(repo, a2, false));
            }
            proof {
                lemma_replies_rest(replies@);
            }
            match reply_output(&a2, &replies[1]) {
                Ok(u) => done_with(Ok(Some(string_of(&u)))),
                Err(e) => done_with(Err(e)),
            }
        },
    }
}

/// `git merge-base --is-ancestor <a> <b>`, asked for its exit status.
pub open spec fn is_ancestor(dir: Seq<char>, a: Seq<char>, b: Seq<char>) -> Invocation {
    probe(dir, seq!["merge-base"@, "--is-ancestor"@, a, b])
}

/// The short `origin` ref of a branch.
pub open spec fn origin_branch(branch: Seq<char>) -> Seq<char> {
    "origin/"@ + branch
}

/// Which ref a reused tree is reset to: the one of `refs/heads/<b>` and
/// `origin/<b>` that exists; when both do, `origin` unless the local one is
/// strictly ahead of it.
pub open spec fn branch_ref_step(repo: Seq<char>, branch: Seq<char>, replies: Seq<Reply>) -> Step<Seq<char>> {
    let l = local_ref(branch);
    let r = origin_branch(branch);
    if replies.len() == 0 {
        Step::Run(verify_ref(repo, l))
    } else {
        match status(replies[0]) {
            Err(e) => Step::Done(Err(e)),
            Ok(local_exists) => if replies.len() == 1 {
                Step::Run(verify_ref(repo, r))
            } else {
                match status(replies[1]) {
                    Err(e) => Step::Done(Err(e)),
                    Ok(remote_exists) => if !local_exists && !remote_exists {
                        Step::Done(Err(Fault::NoRef { branch }))
                    } else if !remote_exists {
                        Step::Done(Ok(l))
                    } else if !local_exists {
                        Step::Done(Ok(r))
                    } else if replies.len() == 2 {
                        Step::Run(is_ancestor(repo, l, r))
                    } else {
                        match status(replies[2]) {
                            Err(e) => Step::Done(Err(e)),
                            Ok(true) => Step::Done(Ok(r)),
                            Ok(false) => if replies.len() == 3 {
                                Step::Run(is_ancestor(repo, r, l))
                            } else {
                                match status(replies[3]) {
                                    Err(e) => Step::Done(Err(e)),
                                    Ok(true) => Step::Done(Ok(l)),
                                    Ok(false) => Step::Done(Ok(r)),
                                }
                            },
                        }
                    },
                }
            },
        }
    }
}

fn ancestor_command(dir: &str, a: &str, b: &str) -> (c: GitCommand)
    ensures
        c@ == is_ancestor(dir@, a@, b@),
{
    command(dir, args4("merge-base", "--is-ancestor", a, b), true)
}

/// The best ref to reset a tree to for `branch`: local or `origin`, whichever
/// is further ahead; `origin` when they diverged.
pub fn branch_ref(repo: &str, branch: &str, replies: &Vec<GitReply>) -> (s: GitStep<String>)
    ensures
        s@ == branch_ref_step(repo@, branch@, replies_view(replies@)),
{
    let l = own("refs/heads/").concat(branch);
    let r = own("origin/").concat(branch);
    if replies.len() == 0 {
        return GitStep::Run(verify_command(repo, l.as_str()));
    }
    let local_exists = match reply_status(&replies[0]) {
        Err(e) => return done_with(Err(e)),
        Ok(b) => b,
    };
    if replies.len() == 1 {
        return GitStep::Run(verify_command(repo, r.as_str()));
    }
    let remote_exists = match reply_status(&replies[1]) {
        Err(e) => return done_with(Err(e)),
        Ok(b) => b,
    };
    if !local_exists && !remote_exists {
        return done_with(Err(GitError::NoRef { branch: own(branch) }));
    }
    if !remote_exists {
        return done_with(Ok(l));
    }
    if !local_exists {
        return done_with(Ok(r));
    }
    if replies.len() == 2 {
        return GitStep::Run(ancestor_command(repo, l.as_str(), r.as_str()));
    }
    let local_behind = match reply_status(&replies[2]) {
        Err(e) => return done_with(Err(e)),
        Ok(b) => b,
    };
    if local_behind {
        return done_with(Ok(r));
    }
    if replies.len() == 3 {
        return GitStep::Run(ancestor_command(repo, r.as_str(), l.as_str()));
    }
    match reply_status(&replies[3]) {
        Err(e) => done_with(Err(e)),
        Ok(true) => done_with(Ok(l)),
        Ok(false) => done_with(Ok(r)),
    }
}


/// The trimmed lines that are not empty, in order.
pub open spec fn nonempty_trimmed(ls: Seq<Seq<char>>) -> Seq<Seq<char>>
    decreases ls.len(),
{
    if ls.len() == 0 {
        seq![]
    } else {
        let l = trim(ls[0]);
        let rest = nonempty_trimmed(ls.drop_first());
        if l.len() == 0 {
            rest
        } else {
            seq![l] + rest
        }
    }
}

fn nonempty_trimmed_lines(o: &Vec<char>) -> (r: Vec<Vec<char>>)
    ensures
        views(r@) == nonempty_trimmed(lines(o@)),
{
    let ls = lines_of(o);
    let ghost all = views(ls@);
    let mut r: Vec<Vec<char>> = Vec::new();
    let mut i: usize = ls.len();
    assert(all.skip(i as int) =~= seq![]);
    while i > 0
        invariant
            i <= ls.len(),
            all == views(ls@),
            views(r@) == nonempty_trimmed(all.skip(i as int)),
        decreases i,
    {
        i = i - 1;
        let ghost tail = all.skip(i as int);
        assert(tail.drop_first() =~= all.skip(i + 1));
        let l = trim_chars(&ls[i]);
        if l.len() > 0 {
            let ghost before = views(r@);
            r.insert(0, l);
            assert(views(r@) =~= seq![l@] + before);
        }
    }
    assert(all.skip(0) =~= all);
    r
}

/// The ref of `branch` on `remote`, as `<remote>/<branch>`.
pub open spec fn remote_branch(remote: Seq<char>, branch: Seq<char>) -> Seq<char> {
    remote + "/"@ + branch
}

/// The scan for unpushed branches, from branch `bs[0]` and remote `rs[ri]` on,
/// given the replies `ans` to the probes it makes; `acc` holds the branches
/// found unpushed so far. A branch is pushed when some remote has its ref
/// (`rev-parse --verify`) and the branch is an ancestor of that ref
/// (`merge-base --is-ancestor`); remotes are tried in order and the first
/// such one ends the search for that branch.
pub open spec fn unpushed_scan(
    repo: Seq<char>,
    bs: Seq<Seq<char>>,
    rs: Seq<Seq<char>>,
    ri: int,
    ans: Seq<Reply>,
    acc: Seq<Seq<char>>,
) -> Step<Seq<Seq<char>>>
    decreases bs.len(), rs.len() - ri,
{
    if bs.len() == 0 {
        Step::Done(Ok(acc))
    } else if ri < 0 || ri >= rs.len() {
        unpushed_scan(repo, bs.drop_first(), rs, 0, ans, acc.push(bs[0]))
    } else {
        let rb = remote_branch(rs[ri], bs[0]);
        if ans.len() == 0 {
            Step::Run(verify_ref(repo, rb))
        } else {
            match status(ans[0]) {
                Err(e) => Step::Done(Err(e)),
                Ok(false) => unpushed_scan(repo, bs, rs, ri + 1, ans.drop_first(), acc),
                Ok(true) => if ans.len() == 1 {
                    Step::Run(is_ancestor(repo, bs[0], rb))
                } else {
                    match status(ans[1]) {
                        Err(e) => Step::Done(Err(e)),
                        Ok(true) => unpushed_scan(repo, bs.drop_first(), rs, 0, ans.skip(2), acc),
                        Ok(false) => unpushed_scan(repo, bs, rs, ri + 1, ans.skip(2), acc),
                    }
                },
            }
        }
    }
}

/// Local branches that no remote holds at the same or a newer commit, in the
/// order `git branch` lists them.
pub open spec fn unpushed_step(repo: Seq<char>, replies: Seq<Reply>) -> Step<Seq<Seq<char>>> {
    let a1 = seq!["branch"@, "--format=%(refname:short)"@];
    let a2 = seq!["remote"@];
    if replies.len() == 0 {
        Step::Run(query(repo, a1))
    } else {
        match output(a1, replies[0]) {
            Err(e) => Step::Done(Err(e)),
            Ok(o1) => if replies.len() == 1 {
                Step::Run(query(repo, a2))
            } else {
                match output(a2, replies[1]) {
                    Err(e) => Step::Done(Err(e)),
                    Ok(o2) => unpushed_scan(
                        repo,
                        nonempty_trimmed(lines(o1)),
                        nonempty_trimmed(lines(o2)),
                        0,
                        replies.skip(2),
                        seq![],
                    ),
                }
            },
        }
    }
}

/// The local branches that have no counterpart on any remote, or are ahead
/// of every remote that has one.
pub fn unpushed_branches(repo: &str, replies: &Vec<GitReply>) -> (s: GitStep<Vec<String>>)
    ensures
        s@ == unpushed_step(repo@, replies_view(replies@)),
{
    let a1 = args2("branch", "--format=%(refname:short)");
    if replies.len() == 0 {
        return GitStep::Run(command(repo, a1, false));
    }
    let o1 = match reply_output(&a1, &replies[0]) {
        Err(e) => return done_with(Err(e)),
        Ok(o) => o,
    };
    let a2 = args1("remote");
    if replies.len() == 1 {
        return GitStep::Run(command(repo, a2, false));
    }
    let o2 = match reply_output(&a2, &replies[1]) {
        Err(e) => return done_with(Err(e)),
        Ok(o) => o,
    };
    let bs = nonempty_trimmed_lines(&o1);
    let rs = nonempty_trimmed_lines(&o2);
    let ghost bsv = views(bs@);
    let ghost rsv = views(rs@);
    let ghost ans = replies_view(replies@);
    let ghost goal = unpushed_step(repo@, ans);
    let slash = chars_of("/");
    let mut acc: Vec<Vec<char>> = Vec::new();
    let mut bi: usize = 0;
    let mut ri: usize = 0;
    let mut k: usize = 2;
    assert(bsv.skip(0) =~= bsv);
    assert(views(acc@) =~= seq![]);
    loop
        invariant
            bi <= bs.len(),
            ri <= rs.len(),
            2 <= k <= replies.len(),
            bsv == views(bs@),
            rsv == views(rs@),
            ans == replies_view(replies@),
            slash@ == "/"@,
            goal == unpushed_step(repo@, ans),
            goal == unpushed_scan(repo@, bsv.skip(bi as int), rsv, ri as int, ans.skip(k as int), views(acc@)),
        decreases bs.len() - bi, rs.len() - ri, replies.len() - k,
    {
        let ghost bt = bsv.skip(bi as int);
        let ghost at = ans.skip(k as int);
        if bi == bs.len() {
            let r = strings_of_all(&acc);
            assert(r.deep_view() =~= texts(r@));
            return done_with(Ok(r));
        }
        assert(bt[0] == bsv[bi as int]);
        assert(bt.drop_first() =~= bsv.skip(bi + 1));
        if ri == rs.len() {
            let ghost before = views(acc@);
            let b = slice_chars(&bs[bi], 0, bs[bi].len());
            assert(b@ =~= bs@[bi as int]@);
            acc.push(b);
            assert(views(acc@) =~= before.push(bt[0]));
            bi = bi + 1;
            ri = 0;
        } else {
            let rb = concat(&concat(&rs[ri], &slash), &bs[bi]);
            let rb_str = string_of(&rb);
            if k == replies.len() {
                return GitStep::Run(verify_command(repo, rb_str.as_str()));
            }
            assert(at[0] == ans[k as int]);
            assert(at.drop_first() =~= ans.skip(k + 1));
            match reply_status(&replies[k]) {
                Err(e) => return done_with(Err(e)),
                Ok(false) => {
                    ri = ri + 1;
                    k = k + 1;
                },
                Ok(true) => {
                    if k + 1 == replies.len() {
                        let b_str = string_of(&bs[bi]);
                        return GitStep::Run(ancestor_command(repo, b_str.as_str(), rb_str.as_str()));
                    }
                    assert(at[1] == ans[k + 1]);
                    assert(at.skip(2) =~= ans.skip(k + 2));
                    match reply_status(&replies[k + 1]) {
                        Err(e) => return done_with(Err(e)),
                        Ok(true) => {
                            bi = bi + 1;
                            ri = 0;
                            k = k + 2;
                        },
                        Ok(false) => {
                            ri = ri + 1;
                            k = k + 2;
                        },
                    }
                },
            }
        }
    }
}


/// The directory a clone is started from: the source's parent, or the source
/// itself when it has none.
pub open spec fn clone_dir(source: Seq<char>) -> Seq<char> {
    match parent(source) {
        Some(p) => p,
        None => source,
    }
}

/// `git clone --local <source> <dest>`, run from `clone_dir(source)`.
pub open spec fn clone_local_step(source: Seq<char>, dest: Seq<char>, replies: Seq<Reply>) -> Step<()> {
    single(clone_dir(source), seq!["clone"@, "--local"@, source, dest], replies, |o: Seq<char>| ())
}

/// Clone a repository with `--local`, so that its objects are hard-linked.
pub fn clone_local(source: &str, dest: &str, replies: &Vec<GitReply>) -> (s: GitStep<()>)
    ensures
        s@ == clone_local_step(source@, dest@, replies_view(replies@)),
{
    let dir = match parent_of(&chars_of(source)) {
        Some(p) => string_of(&p),
        None => own(source),
    };
    unit_step(dir.as_str(), args4("clone", "--local", source, dest), replies)
}


/// Reference selection: with only one of the local and the `origin` ref
/// present, that one is used; with both, `origin` when the local branch is an
/// ancestor of it, the local one when only the reverse holds, and `origin`
/// when they diverged; with neither, the branch is reported missing.
pub proof fn law_branch_ref_prefers_newer(repo: Seq<char>, branch: Seq<char>, replies: Seq<Reply>)
    requires
        replies.len() >= 2,
        status(replies[0]) is Ok,
        status(replies[1]) is Ok,
    ensures
        ({
            let local = status(replies[0])->Ok_0;
            let remote = status(replies[1])->Ok_0;
            let step = branch_ref_step(repo, branch, replies);
            &&& (!local && !remote) ==> step == Step::<Seq<char>>::Done(Err(Fault::NoRef { branch }))
            &&& (local && !remote) ==> step == Step::<Seq<char>>::Done(Ok(local_ref(branch)))
            &&& (!local && remote) ==> step == Step::<Seq<char>>::Done(Ok(origin_branch(branch)))
            &&& (local && remote && replies.len() >= 3 && status(replies[2]) == Ok::<bool, Fault>(true))
                ==> step == Step::<Seq<char>>::Done(Ok(origin_branch(branch)))
            &&& (local && remote && replies.len() >= 4 && status(replies[2]) == Ok::<bool, Fault>(false)
                && status(replies[3]) == Ok::<bool, Fault>(true)) ==> step == Step::<Seq<char>>::Done(
                Ok(local_ref(branch)),
            )
            &&& (local && remote && replies.len() >= 4 && status(replies[2]) == Ok::<bool, Fault>(false)
                && status(replies[3]) == Ok::<bool, Fault>(false)) ==> step == Step::<Seq<char>>::Done(
                Ok(origin_branch(branch)),
            )
        }),
{
}

proof fn lemma_remove_duplicates_unique(s: Seq<Seq<char>>, seen: Seq<Seq<char>>)
    requires
        seen.no_duplicates(),
    ensures
        s.remove_duplicates(seen).no_duplicates(),
    decreases s.len(),
{
    if s.len() > 0 {
        if seen.contains(s[0]) {
            lemma_remove_duplicates_unique(s.skip(1), seen);
        } else {
            let next = seen + seq![s[0]];
            assert forall|i: int, j: int| 0 <= i < j < next.len() implies next[i] != next[j] by {
                if j == seen.len() {
                    assert(seen[i] == next[i]);
                }
            }
            lemma_remove_duplicates_unique(s.skip(1), next);
        }
    }
}

/// The branch list names each branch once, and names every branch that a
/// line of git's output gives.
pub proof fn law_branch_list_unique(output: Seq<char>)
    ensures
        branch_names(lines(output)).remove_duplicates(seq![]).no_duplicates(),
        forall|b: Seq<char>| branch_names(lines(output)).contains(b) <==> branch_names(
            lines(output),
        ).remove_duplicates(seq![]).contains(b),
{
    let names = branch_names(lines(output));
    lemma_remove_duplicates_unique(names, seq![]);
    names.lemma_remove_duplicates_properties(seq![]);
    assert(names + seq![] =~= names);
}

proof fn lemma_scan_reports_branches(
    repo: Seq<char>,
    bs: Seq<Seq<char>>,
    rs: Seq<Seq<char>>,
    ri: int,
    ans: Seq<Reply>,
    acc: Seq<Seq<char>>,
)
    ensures
        unpushed_scan(repo, bs, rs, ri, ans, acc) matches Step::Done(Ok(r)) ==> forall|x: Seq<
            char,
        >| #[trigger] r.contains(x) ==> acc.contains(x) || bs.contains(x),
    decreases bs.len(), rs.len() - ri,
{
    if bs.len() == 0 {
    } else if ri < 0 || ri >= rs.len() {
        lemma_scan_reports_branches(repo, bs.drop_first(), rs, 0, ans, acc.push(bs[0]));
        assert forall|x: Seq<char>| acc.push(bs[0]).contains(x) || bs.drop_first().contains(x)
            implies acc.contains(x) || bs.contains(x) by {
            if acc.push(bs[0]).contains(x) {
                let k = choose|k: int| 0 <= k < acc.push(bs[0]).len() && acc.push(bs[0])[k] == x;
                if k == acc.len() {
                    assert(bs[0] == x);
                } else {
                    assert(acc[k] == x);
                }
            } else {
                let k = choose|k: int| 0 <= k < bs.drop_first().len() && bs.drop_first()[k] == x;
                assert(bs[k + 1] == x);
            }
        }
    } else if ans.len() == 0 {
    } else {
        match status(ans[0]) {
            Err(e) => {},
            Ok(false) => {
                lemma_scan_reports_branches(repo, bs, rs, ri + 1, ans.drop_first(), acc);
            },
            Ok(true) => {
                if ans.len() > 1 {
                    match status(ans[1]) {
                        Err(e) => {},
                        Ok(true) => {
                            lemma_scan_reports_branches(repo, bs.drop_first(), rs, 0, ans.skip(2), acc);
                            assert forall|x: Seq<char>| bs.drop_first().contains(x) implies bs.contains(x) by {
                                let k = choose|k: int| 0 <= k < bs.drop_first().len() && bs.drop_first()[k] == x;
                                assert(bs[k + 1] == x);
                            }
                        },
                        Ok(false) => {
                            lemma_scan_reports_branches(repo, bs, rs, ri + 1, ans.skip(2), acc);
                        },
                    }
                }
            },
        }
    }
}

/// Every branch reported unpushed is a local branch: a non-empty line of
/// `git branch`, trimmed.
pub proof fn law_unpushed_are_local_branches(repo: Seq<char>, replies: Seq<Reply>)
    requires
        replies.len() >= 2,
        output(seq!["branch"@, "--format=%(refname:short)"@], replies[0]) is Ok,
        output(seq!["remote"@], replies[1]) is Ok,
    ensures
        unpushed_step(repo, replies) matches Step::Done(Ok(r)) ==> forall|x: Seq<char>|
            #[trigger] r.contains(x) ==> nonempty_trimmed(
                lines(output(seq!["branch"@, "--format=%(refname:short)"@], replies[0])->Ok_0),
            ).contains(x),
{
    let o1 = output(seq!["branch"@, "--format=%(refname:short)"@], replies[0])->Ok_0;
    let o2 = output(seq!["remote"@], replies[1])->Ok_0;
    lemma_scan_reports_branches(
        repo,
        nonempty_trimmed(lines(o1)),
        nonempty_trimmed(lines(o2)),
        0,
        replies.skip(2),
        seq![],
    );
}

/// A tree is dirty exactly when `git status --porcelain` printed something
/// other than whitespace: a changed file, or an untracked one (`?? <path>`),
/// makes it dirty; only empty output makes it clean. The command asked is
/// `git status --porcelain` in the tree.
pub proof fn law_dirty_when_status_prints(
    repo: Seq<char>,
    stdout: Seq<char>,
    stderr: Seq<char>,
    rest: Seq<Reply>,
)
    ensures
        is_dirty_step(repo, seq![]) == Step::<bool>::Run(
            query(repo, seq!["status"@, "--porcelain"@]),
        ),
        is_dirty_step(repo, seq![Reply::Ran { success: true, stdout, stderr }] + rest)
            == Step::<bool>::Done(
            Ok(exists|i: int| 0 <= i < stdout.len() && !crate::text::is_ws(#[trigger] stdout[i])),
        ),
{
    crate::text::lemma_trim_nonempty(stdout);
    let replies = seq![Reply::Ran { success: true, stdout, stderr }] + rest;
    assert(replies[0] == Reply::Ran { success: true, stdout, stderr });
}

/// A branch exists when either probe finds it: its local ref
/// `refs/heads/<branch>` is asked for first, then `origin`'s; a local-only
/// branch exists, an `origin`-only one exists, and one that neither probe
/// finds does not.
pub proof fn law_branch_exists_either_ref(
    repo: Seq<char>,
    branch: Seq<char>,
    local: bool,
    remote: bool,
    out1: Seq<char>,
    err1: Seq<char>,
    out2: Seq<char>,
    err2: Seq<char>,
    rest: Seq<Reply>,
)
    ensures
        branch_exists_step(repo, branch, seq![]) == Step::<bool>::Run(
            verify_ref(repo, "refs/heads/"@ + branch),
        ),
        branch_exists_step(repo, branch, seq![Reply::Ran { success: local, stdout: out1, stderr: err1 }])
            == Step::<bool>::Run(verify_ref(repo, "refs/remotes/origin/"@ + branch)),
        local ==> branch_exists_step(
            repo,
            branch,
            seq![
                Reply::Ran { success: local, stdout: out1, stderr: err1 },
                Reply::Ran { success: remote, stdout: out2, stderr: err2 },
            ] + rest,
        ) == Step::<bool>::Done(Ok(true)),
        remote ==> branch_exists_step(
            repo,
            branch,
            seq![
                Reply::Ran { success: local, stdout: out1, stderr: err1 },
                Reply::Ran { success: remote, stdout: out2, stderr: err2 },
            ] + rest,
        ) == Step::<bool>::Done(Ok(true)),
        !local && !remote ==> branch_exists_step(
            repo,
            branch,
            seq![
                Reply::Ran { success: local, stdout: out1, stderr: err1 },
                Reply::Ran { success: remote, stdout: out2, stderr: err2 },
            ] + rest,
        ) == Step::<bool>::Done(Ok(false)),
{
    let replies = seq![
        Reply::Ran { success: local, stdout: out1, stderr: err1 },
        Reply::Ran { success: remote, stdout: out2, stderr: err2 },
    ] + rest;
    assert(replies[0] == Reply::Ran { success: local, stdout: out1, stderr: err1 });
    assert(replies[1] == Reply::Ran { success: remote, stdout: out2, stderr: err2 });
}

/// `origin` is found among the remotes when any line of `git remote`'s
/// output is `origin`, whatever other remotes are listed: its URL is then
/// asked for and given, trimmed. Only when no line is `origin` is there no
/// URL.
pub proof fn law_origin_among_remotes(
    repo: Seq<char>,
    remotes: Seq<char>,
    err1: Seq<char>,
    url: Seq<char>,
    err2: Seq<char>,
    rest: Seq<Reply>,
)
    ensures
        (exists|i: int| 0 <= i < lines(trim(remotes)).len() && #[trigger] lines(trim(remotes))[i]
            == "origin"@) ==> remote_url_step(
            repo,
            seq![Reply::Ran { success: true, stdout: remotes, stderr: err1 }],
        ) == Step::<Option<Seq<char>>>::Run(
            query(repo, seq!["remote"@, "get-url"@, "origin"@]),
        ) && remote_url_step(
            repo,
            seq![
                Reply::Ran { success: true, stdout: remotes, stderr: err1 },
                Reply::Ran { success: true, stdout: url, stderr: err2 },
            ] + rest,
        ) == Step::<Option<Seq<char>>>::Done(Ok(Some(trim(url)))),
        (forall|i: int| 0 <= i < lines(trim(remotes)).len() ==> #[trigger] lines(trim(remotes))[i]
            != "origin"@) ==> remote_url_step(
            repo,
            seq![Reply::Ran { success: true, stdout: remotes, stderr: err1 }] + rest,
        ) == Step::<Option<Seq<char>>>::Done(Ok(None)),
{
    let one = seq![Reply::Ran { success: true, stdout: remotes, stderr: err1 }];
    let two = seq![
        Reply::Ran { success: true, stdout: remotes, stderr: err1 },
        Reply::Ran { success: true, stdout: url, stderr: err2 },
    ] + rest;
    assert(two[0] == one[0]);
    assert(two.drop_first()[0] == Reply::Ran { success: true, stdout: url, stderr: err2 });
    assert((one + rest)[0] == one[0]);
    if exists|i: int| 0 <= i < lines(trim(remotes)).len() && #[trigger] lines(trim(remotes))[i]
        == "origin"@ {
        let i = choose|i: int| 0 <= i < lines(trim(remotes)).len() && #[trigger] lines(
            trim(remotes),
        )[i] == "origin"@;
        assert(lines(trim(remotes)).contains("origin"@));
    }
}

/// `remote` holds `branch` at the same or a newer commit, as `world`
/// answers the two probes: its ref `<remote>/<branch>` exists and the branch
/// is an ancestor of it.
pub open spec fn holds_branch(
    world: spec_fn(Invocation) -> Reply,
    repo: Seq<char>,
    remote: Seq<char>,
    branch: Seq<char>,
) -> bool {
    let rb = remote_branch(remote, branch);
    &&& status(world(verify_ref(repo, rb))) == Ok::<bool, Fault>(true)
    &&& status(world(is_ancestor(repo, branch, rb))) == Ok::<bool, Fault>(true)
}

/// `r` is `world`'s reply to the command that `step` asks for.
pub open spec fn answers<T>(step: Step<T>, r: Reply, world: spec_fn(Invocation) -> Reply) -> bool {
    match step {
        Step::Run(c) => r == world(c),
        Step::Done(_) => false,
    }
}

/// Each reply is `world`'s answer to the command the scan asked just then.
pub open spec fn scan_answered(
    repo: Seq<char>,
    bs: Seq<Seq<char>>,
    rs: Seq<Seq<char>>,
    ri: int,
    ans: Seq<Reply>,
    acc: Seq<Seq<char>>,
    world: spec_fn(Invocation) -> Reply,
) -> bool {
    forall|i: int|
        0 <= i < ans.len() ==> #[trigger] answers(
            unpushed_scan(repo, bs, rs, ri, ans.take(i), acc),
            ans[i],
            world,
        )
}

/// Each reply is `world`'s answer to the command the search for unpushed
/// branches asked just then.
pub open spec fn unpushed_answered(
    repo: Seq<char>,
    replies: Seq<Reply>,
    world: spec_fn(Invocation) -> Reply,
) -> bool {
    forall|i: int|
        0 <= i < replies.len() ==> #[trigger] answers(
            unpushed_step(repo, replies.take(i)),
            replies[i],
            world,
        )
}

/// Some remote of `rs` holds `x`.
pub open spec fn held_somewhere(
    world: spec_fn(Invocation) -> Reply,
    repo: Seq<char>,
    rs: Seq<Seq<char>>,
    x: Seq<char>,
) -> bool {
    exists|k: int| 0 <= k < rs.len() && #[trigger] holds_branch(world, repo, rs[k], x)
}

proof fn lemma_scan_world(
    repo: Seq<char>,
    bs: Seq<Seq<char>>,
    rs: Seq<Seq<char>>,
    ri: int,
    ans: Seq<Reply>,
    acc: Seq<Seq<char>>,
    world: spec_fn(Invocation) -> Reply,
)
    requires
        0 <= ri,
        scan_answered(repo, bs, rs, ri, ans, acc, world),
        bs.len() > 0 ==> forall|k: int|
            0 <= k < ri && k < rs.len() ==> !#[trigger] holds_branch(world, repo, rs[k], bs[0]),
    ensures
        unpushed_scan(repo, bs, rs, ri, ans, acc) matches Step::Done(Ok(r)) ==> forall|x: Seq<char>|
            #[trigger] r.contains(x) <==> (acc.contains(x) || (bs.contains(x) && !held_somewhere(
                world,
                repo,
                rs,
                x,
            ))),
    decreases bs.len(), rs.len() - ri,
{
    if bs.len() == 0 {
        return;
    }
    let b = bs[0];
    if ri >= rs.len() {
        let bs2 = bs.drop_first();
        let acc2 = acc.push(b);
        assert forall|i: int| 0 <= i < ans.len() implies #[trigger] answers(
            unpushed_scan(repo, bs2, rs, 0, ans.take(i), acc2),
            ans[i],
            world,
        ) by {
            assert(answers(unpushed_scan(repo, bs, rs, ri, ans.take(i), acc), ans[i], world));
        }
        lemma_scan_world(repo, bs2, rs, 0, ans, acc2, world);
        if let Step::Done(Ok(r)) = unpushed_scan(repo, bs, rs, ri, ans, acc) {
            assert(!held_somewhere(world, repo, rs, b));
            assert forall|x: Seq<char>| #[trigger] r.contains(x) <==> (acc.contains(x) || (
            bs.contains(x) && !held_somewhere(world, repo, rs, x))) by {
                if acc2.contains(x) {
                    let k = choose|k: int| 0 <= k < acc2.len() && acc2[k] == x;
                    if k < acc.len() {
                        assert(acc[k] == x);
                    } else {
                        assert(bs[0] == x);
                    }
                }
                if bs2.contains(x) {
                    let k = choose|k: int| 0 <= k < bs2.len() && bs2[k] == x;
                    assert(bs[k + 1] == x);
                }
                if acc.contains(x) {
                    let k = choose|k: int| 0 <= k < acc.len() && acc[k] == x;
                    assert(acc2[k] == x);
                }
                if bs.contains(x) {
                    let k = choose|k: int| 0 <= k < bs.len() && bs[k] == x;
                    if k == 0 {
                        assert(acc2[acc.len() as int] == x);
                    } else {
                        assert(bs2[k - 1] == x);
                    }
                }
            }
        }
        return;
    }
    let rb = remote_branch(rs[ri], b);
    if ans.len() == 0 {
        return;
    }
    assert(ans.take(0) =~= Seq::<Reply>::empty());
    assert(answers(unpushed_scan(repo, bs, rs, ri, ans.take(0), acc), ans[0], world));
    assert(ans[0] == world(verify_ref(repo, rb)));
    match status(ans[0]) {
        Err(_) => {},
        Ok(false) => {
            let a2 = ans.drop_first();
            assert forall|i: int| 0 <= i < a2.len() implies #[trigger] answers(
                unpushed_scan(repo, bs, rs, ri + 1, a2.take(i), acc),
                a2[i],
                world,
            ) by {
                assert(answers(unpushed_scan(repo, bs, rs, ri, ans.take(i + 1), acc), ans[i + 1], world));
                assert(ans.take(i + 1).drop_first() =~= a2.take(i));
                assert(ans.take(i + 1)[0] == ans[0]);
            }
            assert(!holds_branch(world, repo, rs[ri], b));
            assert forall|k: int| 0 <= k < ri + 1 && k < rs.len() implies !#[trigger] holds_branch(
                world,
                repo,
                rs[k],
                bs[0],
            ) by {}
            lemma_scan_world(repo, bs, rs, ri + 1, a2, acc, world);
        },
        Ok(true) => {
            if ans.len() == 1 {
                return;
            }
            assert(answers(unpushed_scan(repo, bs, rs, ri, ans.take(1), acc), ans[1], world));
            assert(ans.take(1)[0] == ans[0]);
            assert(ans.take(1).len() == 1);
            assert(ans[1] == world(is_ancestor(repo, b, rb)));
            let a3 = ans.skip(2);
            match status(ans[1]) {
                Err(_) => {},
                Ok(true) => {
                    let bs2 = bs.drop_first();
                    assert forall|i: int| 0 <= i < a3.len() implies #[trigger] answers(
                        unpushed_scan(repo, bs2, rs, 0, a3.take(i), acc),
                        a3[i],
                        world,
                    ) by {
                        assert(answers(unpushed_scan(repo, bs, rs, ri, ans.take(i + 2), acc), ans[i + 2], world));
                        assert(ans.take(i + 2).skip(2) =~= a3.take(i));
                        assert(ans.take(i + 2)[0] == ans[0]);
                        assert(ans.take(i + 2)[1] == ans[1]);
                    }
                    lemma_scan_world(repo, bs2, rs, 0, a3, acc, world);
                    assert(holds_branch(world, repo, rs[ri], b));
                    assert(held_somewhere(world, repo, rs, b));
                    if let Step::Done(Ok(r)) = unpushed_scan(repo, bs, rs, ri, ans, acc) {
                        assert forall|x: Seq<char>| #[trigger] r.contains(x) <==> (acc.contains(x) || (
                        bs.contains(x) && !held_somewhere(world, repo, rs, x))) by {
                            if bs2.contains(x) {
                                let k = choose|k: int| 0 <= k < bs2.len() && bs2[k] == x;
                                assert(bs[k + 1] == x);
                            }
                            if bs.contains(x) && x != b {
                                let k = choose|k: int| 0 <= k < bs.len() && bs[k] == x;
                                assert(k != 0);
                                assert(bs2[k - 1] == x);
                            }
                        }
                    }
                },
                Ok(false) => {
                    assert forall|i: int| 0 <= i < a3.len() implies #[trigger] answers(
                        unpushed_scan(repo, bs, rs, ri + 1, a3.take(i), acc),
                        a3[i],
                        world,
                    ) by {
                        assert(answers(unpushed_scan(repo, bs, rs, ri, ans.take(i + 2), acc), ans[i + 2], world));
                        assert(ans.take(i + 2).skip(2) =~= a3.take(i));
                        assert(ans.take(i + 2)[0] == ans[0]);
                        assert(ans.take(i + 2)[1] == ans[1]);
                    }
                    assert(!holds_branch(world, repo, rs[ri], b));
                    assert forall|k: int| 0 <= k < ri + 1 && k < rs.len() implies !#[trigger] holds_branch(
                        world,
                        repo,
                        rs[k],
                        bs[0],
                    ) by {}
                    lemma_scan_world(repo, bs, rs, ri + 1, a3, acc, world);
                },
            }
        },
    }
}

/// A branch is reported unpushed exactly when it is a local branch (a line
/// of `git branch`) that no remote listed by `git remote` holds at the same
/// or a newer commit. Every remote is asked in turn: one that lacks the
/// branch, or holds it at an older commit, does not end the search, and a
/// branch that any remote holds is never reported. `world` answers each
/// command the search asks.
pub proof fn law_unpushed_means_no_remote_holds_it(
    repo: Seq<char>,
    replies: Seq<Reply>,
    world: spec_fn(Invocation) -> Reply,
)
    requires
        unpushed_answered(repo, replies, world),
    ensures
        unpushed_step(repo, replies) matches Step::Done(Ok(r)) ==> forall|x: Seq<char>|
            #[trigger] r.contains(x) <==> (nonempty_trimmed(
                lines(output(seq!["branch"@, "--format=%(refname:short)"@], replies[0])->Ok_0),
            ).contains(x) && !held_somewhere(
                world,
                repo,
                nonempty_trimmed(lines(output(seq!["remote"@], replies[1])->Ok_0)),
                x,
            )),
{
    let a1 = seq!["branch"@, "--format=%(refname:short)"@];
    let a2 = seq!["remote"@];
    if replies.len() < 2 {
        return;
    }
    if output(a1, replies[0]) is Err || output(a2, replies[1]) is Err {
        return;
    }
    let bs = nonempty_trimmed(lines(output(a1, replies[0])->Ok_0));
    let rs = nonempty_trimmed(lines(output(a2, replies[1])->Ok_0));
    let ans = replies.skip(2);
    assert forall|i: int| 0 <= i < ans.len() implies #[trigger] answers(
        unpushed_scan(repo, bs, rs, 0, ans.take(i), seq![]),
        ans[i],
        world,
    ) by {
        assert(answers(unpushed_step(repo, replies.take(i + 2)), replies[i + 2], world));
        assert(replies.take(i + 2).skip(2) =~= ans.take(i));
        assert(replies.take(i + 2)[0] == replies[0]);
        assert(replies.take(i + 2)[1] == replies[1]);
    }
    lemma_scan_world(repo, bs, rs, 0, ans, seq![], world);
}

} // verus!
