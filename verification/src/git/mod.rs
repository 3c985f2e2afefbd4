//! What the application asks of `git` and how it reads the answers. Running
//! the `git` process is left to the caller; this module builds the argument
//! lists and interprets the captured output.
pub mod listing;
pub mod parse;
pub mod types;

use vstd::prelude::*;

use crate::git::listing::{binary_bytes, is_binary};
use crate::git::types::DiffSides;
use vstd::utf8::encode_utf8;
use crate::text::{
    concat,
    chars_of, int_text, push_decimal, string_from, trim, trim_bounds, CharClass,
};

verus! {

/// What a `git` process printed and how it exited.
pub struct GitOutput {
    pub stdout: String,
    pub stderr: String,
    pub code: Option<i32>,
}

/// Trimmed standard output and trimmed standard error, joined by a newline
/// when both are non-empty.
pub open spec fn message_text(stdout: Seq<char>, stderr: Seq<char>) -> Seq<char> {
    let a = trim(stdout, CharClass::Whitespace);
    let b = trim(stderr, CharClass::Whitespace);
    if a.len() > 0 && b.len() > 0 {
        a + seq!['\n'] + b
    } else {
        a + b
    }
}

/// `s` without surrounding whitespace.
pub fn trimmed(s: &str) -> (r: String)
    ensures
        r@ == trim(s@, CharClass::Whitespace),
{
    let v = chars_of(s);
    let (a, b) = trim_bounds(&v, 0, v.len(), CharClass::Whitespace, true, true);
    assert(v@.subrange(0, v@.len() as int) =~= v@);
    string_from(&v, a, b)
}

fn append_str(s: &mut String, t: &str)
    ensures
        final(s)@ == old(s)@ + t@,
{
    for c in it: t.chars()
        invariant
            s@ == old(s)@ + it.seq().take(it.index() as int),
            it.seq() == t@,
    {
        s.push(c);
        assert(old(s)@ + it.seq().take(it.index() + 1) =~= old(s)@ + it.seq().take(it.index() as int) + seq![c]);
    }
    assert(t@.take(t@.len() as int) =~= t@);
}

impl GitOutput {
    /// Standard output and standard error, trimmed, as one message.
    pub fn message(&self) -> (r: String)
        ensures
            r@ == message_text(self.stdout@, self.stderr@),
    {
        let a = trimmed(self.stdout.as_str());
        let b = trimmed(self.stderr.as_str());
        let mut s = String::new();
        if !a.as_str().is_empty() {
            append_str(&mut s, a.as_str());
        }
        if !b.as_str().is_empty() {
            if !s.as_str().is_empty() {
                s.push('\n');
            }
            append_str(&mut s, b.as_str());
        }
        assert(s@ =~= message_text(self.stdout@, self.stderr@));
        s
    }

    /// The process exited with status 0.
    pub fn ok(&self) -> (r: bool)
        ensures
            r == (self.code == Some(0i32)),
    {
        match self.code {
            Some(c) => c == 0,
            None => false,
        }
    }
}

/// The answer to `git rev-parse --is-inside-work-tree`: success and the
/// trimmed output reads `true`.
pub fn is_repo_answer(out: &GitOutput) -> (r: bool)
    ensures
        r == (out.code == Some(0i32) && trim(out.stdout@, CharClass::Whitespace) == "true"@),
{
    let t = trimmed(out.stdout.as_str());
    proof {
        reveal_strlit("true");
    }
    let v = chars_of(t.as_str());
    let is_true = v.len() == 4 && v[0] == 't' && v[1] == 'r' && v[2] == 'u' && v[3] == 'e';
    assert(is_true == (t@ == "true"@)) by {
        if t@.len() == 4 {
            if v[0] == 't' && v[1] == 'r' && v[2] == 'u' && v[3] == 'e' {
                assert(t@ =~= "true"@);
            }
        }
    }
    out.ok() && is_true
}

/// The answer to `git rev-parse --show-toplevel`: the trimmed output on
/// success, nothing otherwise.
pub fn toplevel_answer(out: &GitOutput) -> (r: Option<String>)
    ensures
        out.code == Some(0i32) ==> r is Some && r->0@ == trim(out.stdout@, CharClass::Whitespace),
        out.code != Some(0i32) ==> r is None,
{
    if out.ok() {
        Some(trimmed(out.stdout.as_str()))
    } else {
        None
    }
}

/// The answer to `git rev-parse --abbrev-ref HEAD`: the trimmed output on
/// success, the empty string otherwise.
pub fn current_branch_answer(out: &GitOutput) -> (r: String)
    ensures
        out.code == Some(0i32) ==> r@ == trim(out.stdout@, CharClass::Whitespace),
        out.code != Some(0i32) ==> r@ == Seq::<char>::empty(),
{
    if out.ok() {
        trimmed(out.stdout.as_str())
    } else {
        String::new()
    }
}

/// The answer to `git show <spec>` for a blob: its text on success, the
/// empty string otherwise.
pub fn blob_answer(out: &GitOutput) -> (r: String)
    ensures
        out.code == Some(0i32) ==> r@ == out.stdout@,
        out.code != Some(0i32) ==> r@ == Seq::<char>::empty(),
{
    if out.ok() {
        out.stdout.clone()
    } else {
        String::new()
    }
}

/// The answer to `git show <commit> -- <path>`: standard output, or standard
/// error when standard output is empty.
pub fn patch_answer(out: &GitOutput) -> (r: String)
    ensures
        out.stdout@.len() == 0 ==> r@ == out.stderr@,
        out.stdout@.len() > 0 ==> r@ == out.stdout@,
{
    if out.stdout.as_str().is_empty() {
        out.stderr.clone()
    } else {
        out.stdout.clone()
    }
}

// ---------------------------------------------------------------------------
// Commands
// ---------------------------------------------------------------------------

/// The `git` invocations the application makes.
pub enum GitCommand {
    IsRepo,
    TopLevel,
    Status,
    Log { limit: u64 },
    Branches,
    CurrentBranch,
    Stage { paths: Vec<String> },
    Unstage { paths: Vec<String> },
    Commit { message: String },
    Push,
    Pull,
    Checkout { branch: String },
    CreateBranch { name: String },
    UnifiedDiff { path: String, staged: bool },
    ShowBlob { spec: String },
    CommitFiles { hash: String },
    ShowFilePatch { commit: String, path: String },
}

pub open spec fn strings(v: Seq<String>) -> Seq<Seq<char>> {
    v.map_values(|s: String| s@)
}

/// The argument list of each command.
pub open spec fn command_args(cmd: GitCommand) -> Seq<Seq<char>> {
    match cmd {
        GitCommand::IsRepo => seq!["rev-parse"@, "--is-inside-work-tree"@],
        GitCommand::TopLevel => seq!["rev-parse"@, "--show-toplevel"@],
        GitCommand::Status => seq!["status"@, "--porcelain=v1"@, "-uall"@],
        GitCommand::Log { limit } => seq![
            "log"@,
            "--pretty=format:%H%x1f%s%x1f%an%x1f%ad"@,
            "--date=short"@,
            seq!['-'] + int_text(limit as int),
        ],
        GitCommand::Branches => seq!["branch"@, "--list"@],
        GitCommand::CurrentBranch => seq!["rev-parse"@, "--abbrev-ref"@, "HEAD"@],
        GitCommand::Stage { paths } => seq!["add"@, "--"@] + strings(paths@),
        GitCommand::Unstage { paths } => seq!["reset"@, "HEAD"@, "--"@] + strings(paths@),
        GitCommand::Commit { message } => seq!["commit"@, "-m"@, message@],
        GitCommand::Push => seq!["push"@],
        GitCommand::Pull => seq!["pull"@, "--rebase=false"@],
        GitCommand::Checkout { branch } => seq!["checkout"@, branch@],
        GitCommand::CreateBranch { name } => seq!["checkout"@, "-b"@, name@],
        GitCommand::UnifiedDiff { path, staged } => if staged {
            seq!["diff"@, "--cached"@, "--"@, path@]
        } else {
            seq!["diff"@, "--"@, path@]
        },
        GitCommand::ShowBlob { spec } => seq!["show"@, spec@],
        GitCommand::CommitFiles { hash } => seq!["show"@, "--name-status"@, "--pretty=format:"@, hash@],
        GitCommand::ShowFilePatch { commit, path } => seq!["show"@, commit@, "--"@, path@],
    }
}

fn push_all(v: &mut Vec<String>, items: &Vec<String>)
    ensures
        strings(final(v)@) == strings(old(v)@) + strings(items@),
{
    let mut i: usize = 0;
    while i < items.len()
        invariant
            0 <= i <= items.len(),
            strings(v@) == strings(old(v)@) + strings(items@).take(i as int),
        decreases items.len() - i,
    {
        let ghost prev = strings(v@);
        v.push(items[i].clone());
        assert(strings(v@) =~= prev.push(items@[i as int]@));
        assert(strings(items@).take(i + 1) =~= strings(items@).take(i as int).push(items@[i as int]@));
        assert(strings(v@) =~= strings(old(v)@) + strings(items@).take(i + 1));
        i = i + 1;
    }
    assert(strings(items@).take(items@.len() as int) =~= strings(items@));
}

impl GitCommand {
    /// The arguments to hand to `git`.
    pub fn args(&self) -> (r: Vec<String>)
        ensures
            strings(r@) == command_args(*self),
    {
        let mut v: Vec<String> = Vec::new();
        match self {
            GitCommand::IsRepo => {
                v.push("rev-parse".to_string());
                v.push("--is-inside-work-tree".to_string());
            },
            GitCommand::TopLevel => {
                v.push("rev-parse".to_string());
                v.push("--show-toplevel".to_string());
            },
            GitCommand::Status => {
                v.push("status".to_string());
                v.push("--porcelain=v1".to_string());
                v.push("-uall".to_string());
            },
            GitCommand::Log { limit } => {
                v.push("log".to_string());
                v.push("--pretty=format:%H%x1f%s%x1f%an%x1f%ad".to_string());
                v.push("--date=short".to_string());
                let mut n = String::new();
                n.push('-');
                push_decimal(&mut n, *limit);
                v.push(n);
            },
            GitCommand::Branches => {
                v.push("branch".to_string());
                v.push("--list".to_string());
            },
            GitCommand::CurrentBranch => {
                v.push("rev-parse".to_string());
                v.push("--abbrev-ref".to_string());
                v.push("HEAD".to_string());
            },
            GitCommand::Stage { paths } => {
                v.push("add".to_string());
                v.push("--".to_string());
                push_all(&mut v, paths);
            },
            GitCommand::Unstage { paths } => {
                v.push("reset".to_string());
                v.push("HEAD".to_string());
                v.push("--".to_string());
                push_all(&mut v, paths);
            },
            GitCommand::Commit { message } => {
                v.push("commit".to_string());
                v.push("-m".to_string());
                v.push(message.clone());
            },
            GitCommand::Push => {
                v.push("push".to_string());
            },
            GitCommand::Pull => {
                v.push("pull".to_string());
                v.push("--rebase=false".to_string());
            },
            GitCommand::Checkout { branch } => {
                v.push("checkout".to_string());
                v.push(branch.clone());
            },
            GitCommand::CreateBranch { name } => {
                v.push("checkout".to_string());
                v.push("-b".to_string());
                v.push(name.clone());
            },
            GitCommand::UnifiedDiff { path, staged } => {
                v.push("diff".to_string());
                if *staged {
                    v.push("--cached".to_string());
                }
                v.push("--".to_string());
                v.push(path.clone());
            },
            GitCommand::ShowBlob { spec } => {
                v.push("show".to_string());
                v.push(spec.clone());
            },
            GitCommand::CommitFiles { hash } => {
                v.push("show".to_string());
                v.push("--name-status".to_string());
                v.push("--pretty=format:".to_string());
                v.push(hash.clone());
            },
            GitCommand::ShowFilePatch { commit, path } => {
                v.push("show".to_string());
                v.push(commit.clone());
                v.push("--".to_string());
                v.push(path.clone());
            },
        }
        assert(strings(v@) =~= command_args(*self));
        v
    }
}

// ---------------------------------------------------------------------------
// The two sides of a diff
// ---------------------------------------------------------------------------

/// Where one side of a diff comes from.
pub enum DiffSource {
    /// The text `git show <spec>` prints (empty when it fails).
    Blob { spec: String },
    /// The file in the working tree (empty when it cannot be read).
    Worktree { path: String },
    /// Nothing.
    Empty,
}

/// What to compare for a changed file, and the labels of the two sides.
pub struct DiffPlan {
    pub left: DiffSource,
    pub right: DiffSource,
    pub left_label: String,
    pub right_label: String,
}

pub open spec fn source_view(s: DiffSource) -> (int, Seq<char>) {
    match s {
        DiffSource::Blob { spec } => (0, spec@),
        DiffSource::Worktree { path } => (1, path@),
        DiffSource::Empty => (2, Seq::<char>::empty()),
    }
}

/// A staged change compares `HEAD` with the index; an untracked file compares
/// nothing with the working tree; any other change compares the index with the
/// working tree.
pub open spec fn diff_plan_spec(path: Seq<char>, staged: bool, untracked: bool) -> ((int, Seq<char>), (int, Seq<char>), Seq<char>, Seq<char>) {
    if staged {
        ((0, "HEAD:"@ + path), (0, ":"@ + path), "HEAD"@, "Index"@)
    } else if untracked {
        ((2, Seq::<char>::empty()), (1, path), "空"@, "工作区"@)
    } else {
        ((0, ":"@ + path), (1, path), "Index"@, "工作区"@)
    }
}

/// What to compare for the change of `path`.
pub fn diff_plan(path: &str, staged: bool, untracked: bool) -> (r: DiffPlan)
    ensures
        (source_view(r.left), source_view(r.right), r.left_label@, r.right_label@) == diff_plan_spec(path@, staged, untracked),
{
    if staged {
        DiffPlan {
            left: DiffSource::Blob { spec: concat("HEAD:", path) },
            right: DiffSource::Blob { spec: concat(":", path) },
            left_label: "HEAD".to_string(),
            right_label: "Index".to_string(),
        }
    } else if untracked {
        DiffPlan {
            left: DiffSource::Empty,
            right: DiffSource::Worktree { path: path.to_string() },
            left_label: "空".to_string(),
            right_label: "工作区".to_string(),
        }
    } else {
        DiffPlan {
            left: DiffSource::Blob { spec: concat(":", path) },
            right: DiffSource::Worktree { path: path.to_string() },
            left_label: "Index".to_string(),
            right_label: "工作区".to_string(),
        }
    }
}

/// The two sides of a diff, marked binary when either looks binary.
pub fn diff_sides(left: String, right: String, left_label: String, right_label: String) -> (r: DiffSides)
    ensures
        r@ == (left@, right@, left_label@, right_label@, binary_bytes(encode_utf8(left@)) || binary_bytes(encode_utf8(right@))),
{
    let binary = is_binary(left.as_str()) || is_binary(right.as_str());
    DiffSides { left, right, left_label, right_label, binary }
}

} // verus!
