//! What the application reacts to (`Action`) and what it asks the outside
//! world to do (`Effect`).
use vstd::prelude::*;

use crate::git::types::{
    BranchInfo, CommitFile, CommitInfo, DiffSides, DirEntry, FileChange, RecentProject,
};
use crate::git::{strings, GitCommand, GitOutput, message_text};
use crate::text::concat;

verus! {

/// A key of the keyboard.
#[derive(Debug, Clone, Copy, PartialEq, Eq, Structural)]
pub enum KeyCode {
    Char(char),
    Enter,
    Esc,
    Backspace,
    Up,
    Down,
    Left,
    Right,
    Home,
    End,
    Tab,
    BackTab,
    Other,
}

/// A key event: the key, whether Control was held, and whether it is the
/// key's release.
#[derive(Debug, Clone, Copy, PartialEq, Eq, Structural)]
pub struct Key {
    pub code: KeyCode,
    pub ctrl: bool,
    pub release: bool,
}

#[derive(Debug, Clone, Copy, PartialEq, Eq, Structural)]
pub enum MouseKind {
    LeftDown,
    ScrollUp,
    ScrollDown,
    Other,
}

/// A mouse event at a terminal cell.
#[derive(Debug, Clone, Copy, PartialEq, Eq, Structural)]
pub struct Mouse {
    pub kind: MouseKind,
    pub column: u16,
    pub row: u16,
}

/// Input events and the results of background work, all handled by
/// `App::update`.
pub enum Action {
    Tick,
    Key(Key),
    Mouse(Mouse),
    Resize,
    RepoOpened { path: String, name: String },
    StatusLoaded(Vec<FileChange>),
    LogLoaded(Vec<CommitInfo>),
    BranchesLoaded(Vec<BranchInfo>),
    CurrentBranchLoaded(String),
    DiffLoaded { path: String, staged: bool, untracked: bool, sides: DiffSides, unified: String },
    CommitFilesLoaded { hash: String, files: Vec<CommitFile> },
    HistoryDiffLoaded { path: String, content: String },
    DirLoaded { path: String, entries: Vec<DirEntry> },
    FileLoaded { path: String, content: String },
    FileSaved,
    OpFinished(String),
    Error(String),
    RepoChanged,
    CmdOutput { data: String },
    CmdStarted,
    CmdStartFailed(String),
    CmdExited(Option<i32>),
    RecentLoaded(Vec<RecentProject>),
}

/// The kinds of outside work.
#[derive(Debug, Clone, Copy, PartialEq, Eq, Structural)]
pub enum EffectKind {
    OpenRepo,
    StartWatcher,
    StopWatcher,
    RecordRecent,
    ForgetRecent,
    LoadStatus,
    LoadLog,
    LoadBranches,
    LoadCurrentBranch,
    ListDir,
    Stage,
    Unstage,
    Commit,
    Checkout,
    CreateBranch,
    Push,
    Pull,
    LoadDiff,
    LoadCommitFiles,
    LoadHistoryFile,
    ReadFile,
    WriteFile,
    SpawnCommand,
    KillCommand,
    PollCommand,
}

/// Outside work the application asks for; the results come back as actions.
pub enum Effect {
    /// Check that `path` is inside a repository and find its top level
    /// (`RepoOpened` or `Error`).
    OpenRepo { path: String },
    /// Watch the repository for changes (`RepoChanged`).
    StartWatcher { path: String },
    StopWatcher,
    /// Put the repository first in the stored recent list (`RecentLoaded`).
    RecordRecent { path: String, name: String },
    /// Drop the repository from the stored recent list (`RecentLoaded`).
    ForgetRecent { path: String },
    LoadStatus { repo: String },
    LoadLog { repo: String, limit: u64 },
    LoadBranches { repo: String },
    LoadCurrentBranch { repo: String },
    ListDir { repo: String, path: String },
    Stage { repo: String, paths: Vec<String> },
    Unstage { repo: String, paths: Vec<String> },
    Commit { repo: String, message: String },
    Checkout { repo: String, branch: String },
    CreateBranch { repo: String, name: String },
    Push { repo: String },
    Pull { repo: String },
    LoadDiff { repo: String, path: String, staged: bool, untracked: bool },
    LoadCommitFiles { repo: String, hash: String },
    LoadHistoryFile { repo: String, hash: String, path: String },
    ReadFile { repo: String, path: String },
    WriteFile { repo: String, path: String, content: String },
    SpawnCommand { repo: String, line: String },
    KillCommand,
    PollCommand,
}

/// An effect as its kind, its texts, two flags and a number.
pub type EffectView = (EffectKind, Seq<Seq<char>>, bool, bool, u64);

/// An effect with only texts.
pub open spec fn ev(k: EffectKind, s: Seq<Seq<char>>) -> EffectView {
    (k, s, false, false, 0)
}

impl View for Effect {
    type V = EffectView;

    open spec fn view(&self) -> EffectView {
        match self {
            Effect::OpenRepo { path } => ev(EffectKind::OpenRepo, seq![path@]),
            Effect::StartWatcher { path } => ev(EffectKind::StartWatcher, seq![path@]),
            Effect::StopWatcher => ev(EffectKind::StopWatcher, seq![]),
            Effect::RecordRecent { path, name } => ev(EffectKind::RecordRecent, seq![path@, name@]),
            Effect::ForgetRecent { path } => ev(EffectKind::ForgetRecent, seq![path@]),
            Effect::LoadStatus { repo } => ev(EffectKind::LoadStatus, seq![repo@]),
            Effect::LoadLog { repo, limit } => (EffectKind::LoadLog, seq![repo@], false, false, *limit),
            Effect::LoadBranches { repo } => ev(EffectKind::LoadBranches, seq![repo@]),
            Effect::LoadCurrentBranch { repo } => ev(EffectKind::LoadCurrentBranch, seq![repo@]),
            Effect::ListDir { repo, path } => ev(EffectKind::ListDir, seq![repo@, path@]),
            Effect::Stage { repo, paths } => ev(EffectKind::Stage, seq![repo@] + strings(paths@)),
            Effect::Unstage { repo, paths } => ev(EffectKind::Unstage, seq![repo@] + strings(paths@)),
            Effect::Commit { repo, message } => ev(EffectKind::Commit, seq![repo@, message@]),
            Effect::Checkout { repo, branch } => ev(EffectKind::Checkout, seq![repo@, branch@]),
            Effect::CreateBranch { repo, name } => ev(EffectKind::CreateBranch, seq![repo@, name@]),
            Effect::Push { repo } => ev(EffectKind::Push, seq![repo@]),
            Effect::Pull { repo } => ev(EffectKind::Pull, seq![repo@]),
            Effect::LoadDiff { repo, path, staged, untracked } => (EffectKind::LoadDiff, seq![repo@, path@], *staged, *untracked, 0),
            Effect::LoadCommitFiles { repo, hash } => ev(EffectKind::LoadCommitFiles, seq![repo@, hash@]),
            Effect::LoadHistoryFile { repo, hash, path } => ev(EffectKind::LoadHistoryFile, seq![repo@, hash@, path@]),
            Effect::ReadFile { repo, path } => ev(EffectKind::ReadFile, seq![repo@, path@]),
            Effect::WriteFile { repo, path, content } => ev(EffectKind::WriteFile, seq![repo@, path@, content@]),
            Effect::SpawnCommand { repo, line } => ev(EffectKind::SpawnCommand, seq![repo@, line@]),
            Effect::KillCommand => ev(EffectKind::KillCommand, seq![]),
            Effect::PollCommand => ev(EffectKind::PollCommand, seq![]),
        }
    }
}

pub open spec fn effect_views(v: Seq<Effect>) -> Seq<EffectView> {
    v.map_values(|e: Effect| e@)
}

/// The `git` invocation behind a repository operation.
pub open spec fn op_command_args(e: EffectView) -> Seq<Seq<char>> {
    let s = e.1;
    match e.0 {
        EffectKind::Stage => seq!["add"@, "--"@] + s.drop_first(),
        EffectKind::Unstage => seq!["reset"@, "HEAD"@, "--"@] + s.drop_first(),
        EffectKind::Commit => seq!["commit"@, "-m"@, s[1]],
        EffectKind::Checkout => seq!["checkout"@, s[1]],
        EffectKind::CreateBranch => seq!["checkout"@, "-b"@, s[1]],
        EffectKind::Push => seq!["push"@],
        _ => seq!["pull"@, "--rebase=false"@],
    }
}

/// The repository operations whose outcome is reported with `op_outcome`.
pub open spec fn is_repo_op(k: EffectKind) -> bool {
    k == EffectKind::Stage || k == EffectKind::Unstage || k == EffectKind::Commit || k == EffectKind::Checkout
        || k == EffectKind::CreateBranch || k == EffectKind::Push || k == EffectKind::Pull
}

/// The message for a finished repository operation.
pub open spec fn op_success_text(e: EffectView) -> Seq<char> {
    match e.0 {
        EffectKind::Stage => "已暂存"@,
        EffectKind::Unstage => "已取消暂存"@,
        EffectKind::Commit => "提交成功"@,
        EffectKind::Checkout => "已切换到 "@ + e.1[1],
        EffectKind::CreateBranch => "已创建并切换 "@ + e.1[1],
        EffectKind::Push => "push 完成"@,
        _ => "pull 完成"@,
    }
}

/// The beginning of the message for a failed repository operation.
pub open spec fn op_failure_prefix(k: EffectKind) -> Seq<char> {
    match k {
        EffectKind::Stage => "暂存失败: "@,
        EffectKind::Unstage => "取消暂存失败: "@,
        EffectKind::Commit => "提交失败: "@,
        EffectKind::Checkout => "切换失败: "@,
        EffectKind::CreateBranch => "创建失败: "@,
        EffectKind::Push => "push 失败: "@,
        _ => "pull 失败: "@,
    }
}

pub open spec fn action_message(a: Action) -> Option<(bool, Seq<char>)> {
    match a {
        Action::OpFinished(m) => Some((true, m@)),
        Action::Error(m) => Some((false, m@)),
        _ => None,
    }
}

impl Effect {
    pub open spec fn repo_op(&self) -> bool {
        is_repo_op(self@.0)
    }

    /// The `git` invocation of a repository operation.
    pub fn op_command(&self) -> (r: GitCommand)
        requires
            self.repo_op(),
        ensures
            crate::git::command_args(r) == op_command_args(self@),
    {
        let r = match self {
            Effect::Stage { paths, .. } => GitCommand::Stage { paths: clone_strings(paths) },
            Effect::Unstage { paths, .. } => GitCommand::Unstage { paths: clone_strings(paths) },
            Effect::Commit { message, .. } => GitCommand::Commit { message: message.clone() },
            Effect::Checkout { branch, .. } => GitCommand::Checkout { branch: branch.clone() },
            Effect::CreateBranch { name, .. } => GitCommand::CreateBranch { name: name.clone() },
            Effect::Push { .. } => GitCommand::Push,
            _ => GitCommand::Pull,
        };
        proof {
            match self {
                Effect::Stage { repo, paths } => {
                    assert((seq![repo@] + strings(paths@)).drop_first() =~= strings(paths@));
                },
                Effect::Unstage { repo, paths } => {
                    assert((seq![repo@] + strings(paths@)).drop_first() =~= strings(paths@));
                },
                _ => {},
            }
        }
        r
    }

    /// What the application hears when a repository operation ends: its
    /// success message when `git` exited with 0, otherwise an error naming
    /// the operation followed by `git`'s message.
    pub fn op_outcome(&self, out: &GitOutput) -> (r: Action)
        requires
            self.repo_op(),
        ensures
            out.code == Some(0i32) ==> action_message(r) == Some((true, op_success_text(self@))),
            out.code != Some(0i32) ==> action_message(r) == Some((false, op_failure_prefix(self@.0) + message_text(out.stdout@, out.stderr@))),
    {
        if out.ok() {
            let msg = match self {
                Effect::Stage { .. } => "已暂存".to_string(),
                Effect::Unstage { .. } => "已取消暂存".to_string(),
                Effect::Commit { .. } => "提交成功".to_string(),
                Effect::Checkout { branch, .. } => concat("已切换到 ", branch.as_str()),
                Effect::CreateBranch { name, .. } => concat("已创建并切换 ", name.as_str()),
                Effect::Push { .. } => "push 完成".to_string(),
                _ => "pull 完成".to_string(),
            };
            Action::OpFinished(msg)
        } else {
            let prefix = match self {
                Effect::Stage { .. } => "暂存失败: ",
                Effect::Unstage { .. } => "取消暂存失败: ",
                Effect::Commit { .. } => "提交失败: ",
                Effect::Checkout { .. } => "切换失败: ",
                Effect::CreateBranch { .. } => "创建失败: ",
                Effect::Push { .. } => "push 失败: ",
                _ => "pull 失败: ",
            };
            let m = out.message();
            Action::Error(concat(prefix, m.as_str()))
        }
    }
}

pub fn clone_strings(v: &Vec<String>) -> (r: Vec<String>)
    ensures
        strings(r@) == strings(v@),
{
    let mut out: Vec<String> = Vec::new();
    let mut i: usize = 0;
    while i < v.len()
        invariant
            0 <= i <= v.len(),
            strings(out@) == strings(v@).take(i as int),
        decreases v.len() - i,
    {
        let ghost prev = strings(out@);
        out.push(v[i].clone());
        assert(strings(out@) =~= prev.push(v@[i as int]@));
        assert(strings(v@).take(i + 1) =~= strings(v@).take(i as int).push(v@[i as int]@));
        i = i + 1;
    }
    assert(strings(v@).take(v@.len() as int) =~= strings(v@));
    out
}

} // verus!
