//! Plain records that the git layer produces and the application state holds.
use vstd::prelude::*;

verus! {

/// Where a change of a file stands.
#[derive(Debug, Clone, Copy, PartialEq, Eq, Structural)]
pub enum Area {
    Staged,
    Unstaged,
    Untracked,
}

pub open spec fn opt_view(o: Option<String>) -> Option<Seq<char>> {
    match o {
        Some(s) => Some(s@),
        None => None,
    }
}

pub fn clone_opt_string(o: &Option<String>) -> (r: Option<String>)
    ensures
        opt_view(r) == opt_view(*o),
{
    match o {
        Some(s) => Some(s.clone()),
        None => None,
    }
}

/// One line of the working-tree status, in one area.
#[derive(Debug, Clone)]
pub struct FileChange {
    pub path: String,
    pub old_path: Option<String>,
    pub index_status: char,
    pub worktree_status: char,
    pub area: Area,
}

impl View for FileChange {
    type V = (Seq<char>, Option<Seq<char>>, char, char, Area);

    open spec fn view(&self) -> Self::V {
        (self.path@, opt_view(self.old_path), self.index_status, self.worktree_status, self.area)
    }
}

impl FileChange {
    pub fn duplicate(&self) -> (r: FileChange)
        ensures
            r@ == self@,
    {
        FileChange {
            path: self.path.clone(),
            old_path: clone_opt_string(&self.old_path),
            index_status: self.index_status,
            worktree_status: self.worktree_status,
            area: self.area,
        }
    }
}

/// The two texts a side-by-side diff compares, with their labels.
#[derive(Debug, Clone)]
pub struct DiffSides {
    pub left: String,
    pub right: String,
    pub left_label: String,
    pub right_label: String,
    pub binary: bool,
}

impl View for DiffSides {
    type V = (Seq<char>, Seq<char>, Seq<char>, Seq<char>, bool);

    open spec fn view(&self) -> Self::V {
        (self.left@, self.right@, self.left_label@, self.right_label@, self.binary)
    }
}

impl DiffSides {
    /// Two empty sides without labels.
    pub fn empty() -> (r: DiffSides)
        ensures
            r@ == (Seq::<char>::empty(), Seq::<char>::empty(), Seq::<char>::empty(), Seq::<char>::empty(), false),
    {
        DiffSides {
            left: String::new(),
            right: String::new(),
            left_label: String::new(),
            right_label: String::new(),
            binary: false,
        }
    }
}

/// One commit of the history list.
#[derive(Debug, Clone)]
pub struct CommitInfo {
    pub hash: String,
    pub subject: String,
    pub author: String,
    pub date: String,
}

impl View for CommitInfo {
    type V = (Seq<char>, Seq<char>, Seq<char>, Seq<char>);

    open spec fn view(&self) -> Self::V {
        (self.hash@, self.subject@, self.author@, self.date@)
    }
}

/// One file touched by a commit, with its one-letter status.
#[derive(Debug, Clone)]
pub struct CommitFile {
    pub path: String,
    pub status: String,
}

impl View for CommitFile {
    type V = (Seq<char>, Seq<char>);

    open spec fn view(&self) -> Self::V {
        (self.path@, self.status@)
    }
}

/// One local branch.
#[derive(Debug, Clone)]
pub struct BranchInfo {
    pub name: String,
    pub is_current: bool,
}

impl View for BranchInfo {
    type V = (Seq<char>, bool);

    open spec fn view(&self) -> Self::V {
        (self.name@, self.is_current)
    }
}

/// One entry of a directory listing; `path` is relative to the repository.
#[derive(Debug, Clone)]
pub struct DirEntry {
    pub name: String,
    pub path: String,
    pub is_dir: bool,
}

impl View for DirEntry {
    type V = (Seq<char>, Seq<char>, bool);

    open spec fn view(&self) -> Self::V {
        (self.name@, self.path@, self.is_dir)
    }
}

impl DirEntry {
    pub fn duplicate(&self) -> (r: DirEntry)
        ensures
            r@ == self@,
    {
        DirEntry { name: self.name.clone(), path: self.path.clone(), is_dir: self.is_dir }
    }
}

/// One repository in the list of recently opened ones.
#[derive(Debug, Clone)]
pub struct RecentProject {
    pub path: String,
    pub name: String,
    pub last_opened_at: i64,
}

impl View for RecentProject {
    type V = (Seq<char>, Seq<char>, i64);

    open spec fn view(&self) -> Self::V {
        (self.path@, self.name@, self.last_opened_at)
    }
}

impl RecentProject {
    pub fn duplicate(&self) -> (r: RecentProject)
        ensures
            r@ == self@,
    {
        RecentProject {
            path: self.path.clone(),
            name: self.name.clone(),
            last_opened_at: self.last_opened_at,
        }
    }
}

} // verus!
