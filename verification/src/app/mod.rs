//! The application state and how it reacts to each action: which fields
//! change and which outside work is asked for.
pub mod keys;
pub mod mouse;
pub mod ops;
pub mod update;

use vstd::prelude::*;

use crate::diff::DiffRow;
use crate::event::{ev, effect_views, Action, Effect, EffectKind, EffectView};
use crate::filetree::FileTreeState;
use crate::git::types::{
    BranchInfo, CommitFile, CommitInfo, DiffSides, FileChange, RecentProject,
};
use crate::recent::Recent;
use crate::terminal::{pushed, texts, CmdRunner};
use crate::ui::Rect;

verus! {

#[derive(Debug, Clone, Copy, PartialEq, Eq, Structural)]
pub enum Mode {
    Welcome,
    Workspace,
}

#[derive(Debug, Clone, Copy, PartialEq, Eq, Structural)]
pub enum LeftTab {
    Changes,
    Files,
}

#[derive(Debug, Clone, Copy, PartialEq, Eq, Structural)]
pub enum CenterView {
    Diff,
    Editor,
    HistoryDiff,
}

#[derive(Debug, Clone, Copy, PartialEq, Eq, Structural)]
pub enum Panel {
    Left,
    Center,
    History,
    Terminal,
}

#[derive(Debug, Clone, Copy, PartialEq, Eq, Structural)]
pub enum InputMode {
    Normal,
    Path,
    Commit,
    Branch,
    Command,
    Edit,
}

pub struct ChangesState {
    pub items: Vec<FileChange>,
    pub selected: usize,
}

impl Default for ChangesState {
    fn default() -> (r: Self)
        ensures
            r.items@.len() == 0,
            r.selected == 0,
    {
        ChangesState { items: Vec::new(), selected: 0 }
    }
}

pub struct HistoryState {
    pub commits: Vec<CommitInfo>,
    pub selected: usize,
    pub in_files: bool,
    pub files: Vec<CommitFile>,
    pub files_selected: usize,
    pub selected_hash: Option<String>,
    pub detail: Option<(String, String)>,
    pub detail_scroll: usize,
}

impl Default for HistoryState {
    fn default() -> (r: Self)
        ensures
            r.commits@.len() == 0,
            r.selected == 0,
            !r.in_files,
            r.files@.len() == 0,
            r.files_selected == 0,
            r.selected_hash is None,
            r.detail is None,
            r.detail_scroll == 0,
    {
        HistoryState {
            commits: Vec::new(),
            selected: 0,
            in_files: false,
            files: Vec::new(),
            files_selected: 0,
            selected_hash: None,
            detail: None,
            detail_scroll: 0,
        }
    }
}

pub struct BranchState {
    pub items: Vec<BranchInfo>,
    pub current: String,
    pub visible: bool,
    pub selected: usize,
}

impl Default for BranchState {
    fn default() -> (r: Self)
        ensures
            r.items@.len() == 0,
            r.current@.len() == 0,
            !r.visible,
            r.selected == 0,
    {
        BranchState { items: Vec::new(), current: String::new(), visible: false, selected: 0 }
    }
}

pub struct EditorState {
    pub path: String,
    pub lines: Vec<String>,
    pub cursor_line: usize,
    pub cursor_col: usize,
    pub dirty: bool,
    pub scroll: usize,
}

impl Default for EditorState {
    fn default() -> (r: Self)
        ensures
            r.path@.len() == 0,
            r.lines@.len() == 0,
            r.cursor_line == 0,
            r.cursor_col == 0,
            !r.dirty,
            r.scroll == 0,
    {
        EditorState {
            path: String::new(),
            lines: Vec::new(),
            cursor_line: 0,
            cursor_col: 0,
            dirty: false,
            scroll: 0,
        }
    }
}

pub struct DiffState {
    pub path: String,
    pub staged: bool,
    pub untracked: bool,
    pub sides: DiffSides,
    pub unified: String,
    pub rows: Vec<DiffRow>,
    pub hunks: Vec<usize>,
    pub hunk_idx: usize,
    pub side_by_side: bool,
    pub scroll: usize,
    pub loading: bool,
}

impl Default for DiffState {
    fn default() -> (r: Self)
        ensures
            r.path@.len() == 0,
            !r.staged,
            !r.untracked,
            r.sides@ == (Seq::<char>::empty(), Seq::<char>::empty(), Seq::<char>::empty(), Seq::<char>::empty(), false),
            r.unified@.len() == 0,
            r.rows@.len() == 0,
            r.hunks@.len() == 0,
            r.hunk_idx == 0,
            r.side_by_side,
            r.scroll == 0,
            !r.loading,
    {
        DiffState {
            path: String::new(),
            staged: false,
            untracked: false,
            sides: DiffSides::empty(),
            unified: String::new(),
            rows: Vec::new(),
            hunks: Vec::new(),
            hunk_idx: 0,
            side_by_side: true,
            scroll: 0,
            loading: false,
        }
    }
}

/// The areas of the panels in the last drawn frame, for mouse hits.
#[derive(Debug, Clone, Copy)]
pub struct Rects {
    pub left: Rect,
    pub center: Rect,
    pub history: Rect,
    pub terminal: Rect,
    pub left_list: Rect,
    pub history_list: Rect,
    pub recent_list: Rect,
}

impl Rects {
    /// No area recorded yet.
    pub open spec fn zero_spec() -> Rects {
        Rects {
            left: Rect::zero_spec(),
            center: Rect::zero_spec(),
            history: Rect::zero_spec(),
            terminal: Rect::zero_spec(),
            left_list: Rect::zero_spec(),
            history_list: Rect::zero_spec(),
            recent_list: Rect::zero_spec(),
        }
    }
}

impl Default for Rects {
    fn default() -> (r: Self)
        ensures
            r == Rects::zero_spec(),
    {
        Rects {
            left: Rect::zero(),
            center: Rect::zero(),
            history: Rect::zero(),
            terminal: Rect::zero(),
            left_list: Rect::zero(),
            history_list: Rect::zero(),
            recent_list: Rect::zero(),
        }
    }
}

pub struct App {
    pub mode: Mode,
    pub repo_path: Option<String>,
    pub repo_name: String,
    pub current_branch: String,
    pub git_version: String,
    pub focus: Panel,
    pub left_tab: LeftTab,
    pub center_view: CenterView,
    pub input_mode: InputMode,
    pub input: String,
    pub changes: ChangesState,
    pub history: HistoryState,
    pub branches: BranchState,
    pub filetree: FileTreeState,
    pub editor: EditorState,
    pub diff: DiffState,
    pub runner: CmdRunner,
    pub recent: Recent,
    pub recent_list: Vec<RecentProject>,
    pub recent_selected: usize,
    pub status_msg: Option<String>,
    pub error_msg: Option<String>,
    pub help_open: bool,
    pub should_quit: bool,
    /// Whether a file watcher runs for the open repository.
    pub watching: bool,
    pub rects: Rects,
}

// ---------------------------------------------------------------------------
// Small spec helpers
// ---------------------------------------------------------------------------

/// `n.saturating_sub(1)`.
pub open spec fn sat_dec(n: int) -> int {
    if n > 0 {
        n - 1
    } else {
        0
    }
}

/// A selection kept inside a list of `len` rows after the list changed.
pub open spec fn clamp_sel(sel: usize, len: nat) -> usize {
    if sel >= len {
        sat_dec(len as int) as usize
    } else {
        sel
    }
}

/// `Some(s)` holding the text `t`.
pub open spec fn is_text(o: Option<String>, t: Seq<char>) -> bool {
    o matches Some(s) && s@ == t
}

/// After a reload the selection points at a row whenever the list has one,
/// and stays where it was when that row still exists.
pub proof fn law_selection_in_range(sel: usize, len: nat)
    requires
        len > 0,
    ensures
        clamp_sel(sel, len) < len,
        sel < len ==> clamp_sel(sel, len) == sel,
{
}

fn clamp_index(sel: usize, len: usize) -> (r: usize)
    ensures
        r == clamp_sel(sel, len as nat),
{
    if sel >= len {
        len.saturating_sub(1)
    } else {
        sel
    }
}

impl App {
    // -----------------------------------------------------------------------
    // Reloads
    // -----------------------------------------------------------------------

    /// The effect that reloads the status, when a repository is open.
    pub open spec fn reload_status_spec(self) -> Seq<EffectView> {
        match self.repo_path {
            Some(r) => seq![ev(EffectKind::LoadStatus, seq![r@])],
            None => seq![],
        }
    }

    /// The effects that reload status, log (100 commits), branches and the
    /// current branch, when a repository is open.
    pub open spec fn reload_ops_spec(self) -> Seq<EffectView> {
        match self.repo_path {
            Some(r) => seq![
                ev(EffectKind::LoadStatus, seq![r@]),
                (EffectKind::LoadLog, seq![r@], false, false, 100u64),
                ev(EffectKind::LoadBranches, seq![r@]),
                ev(EffectKind::LoadCurrentBranch, seq![r@]),
            ],
            None => seq![],
        }
    }

    /// Everything `reload_ops_spec` reloads, and the root listing.
    pub open spec fn reload_all_spec(self) -> Seq<EffectView> {
        match self.repo_path {
            Some(r) => self.reload_ops_spec() + seq![ev(EffectKind::ListDir, seq![r@, Seq::<char>::empty()])],
            None => seq![],
        }
    }

    fn reload_status(&self, effects: &mut Vec<Effect>)
        ensures
            effect_views(final(effects)@) == effect_views(old(effects)@) + self.reload_status_spec(),
    {
        match &self.repo_path {
            Some(r) => {
                let ghost prev = effect_views(effects@);
                effects.push(Effect::LoadStatus { repo: r.clone() });
                assert(effect_views(effects@) =~= prev + self.reload_status_spec());
            },
            None => {
                assert(effect_views(effects@) =~= effect_views(old(effects)@) + self.reload_status_spec());
            },
        }
    }

    fn reload_ops(&self, effects: &mut Vec<Effect>)
        ensures
            effect_views(final(effects)@) == effect_views(old(effects)@) + self.reload_ops_spec(),
    {
        match &self.repo_path {
            Some(r) => {
                let ghost prev = effect_views(effects@);
                effects.push(Effect::LoadStatus { repo: r.clone() });
                effects.push(Effect::LoadLog { repo: r.clone(), limit: 100 });
                effects.push(Effect::LoadBranches { repo: r.clone() });
                effects.push(Effect::LoadCurrentBranch { repo: r.clone() });
                assert(effect_views(effects@) =~= prev + self.reload_ops_spec());
            },
            None => {
                assert(effect_views(effects@) =~= effect_views(old(effects)@) + self.reload_ops_spec());
            },
        }
    }

    fn reload_all(&self, effects: &mut Vec<Effect>)
        ensures
            effect_views(final(effects)@) == effect_views(old(effects)@) + self.reload_all_spec(),
    {
        let ghost prev = effect_views(effects@);
        self.reload_ops(effects);
        match &self.repo_path {
            Some(r) => {
                let ghost mid = effect_views(effects@);
                effects.push(Effect::ListDir { repo: r.clone(), path: String::new() });
                assert(effect_views(effects@) =~= mid.push(ev(EffectKind::ListDir, seq![r@, Seq::<char>::empty()])));
                assert(effect_views(effects@) =~= prev + self.reload_all_spec());
            },
            None => {
                assert(effect_views(effects@) =~= prev + self.reload_all_spec());
            },
        }
    }

    // -----------------------------------------------------------------------
    // Construction
    // -----------------------------------------------------------------------

    /// A fresh application on the welcome screen, showing `recent_list`.
    pub fn new(git_version: String, recent: Recent, recent_list: Vec<RecentProject>) -> (r: App)
        ensures
            r.mode == Mode::Welcome,
            r.repo_path is None,
            r.repo_name@.len() == 0,
            r.current_branch@.len() == 0,
            r.git_version == git_version,
            r.focus == Panel::Left,
            r.left_tab == LeftTab::Changes,
            r.center_view == CenterView::Diff,
            r.input_mode == InputMode::Normal,
            r.input@.len() == 0,
            crate::app::ops::changes_empty(r.changes),
            crate::app::ops::history_empty(r.history),
            crate::app::ops::branches_empty(r.branches),
            crate::app::ops::tree_empty(r.filetree),
            crate::app::ops::editor_empty(r.editor),
            crate::app::ops::diff_empty(r.diff),
            r.runner.visible && r.runner.height_percent == 25 && !r.runner.running && r.runner.scroll == 0,
            texts(r.runner.output@) == seq![crate::terminal::welcome_line()],
            r.runner.input@.len() == 0 && r.runner.history@.len() == 0 && r.runner.hist_idx is None,
            r.rects == Rects::zero_spec(),
            r.recent == recent,
            r.recent_list == recent_list,
            r.recent_selected == 0,
            r.status_msg is None,
            r.error_msg is None,
            !r.help_open,
            !r.should_quit,
            !r.watching,
    {
        App {
            mode: Mode::Welcome,
            repo_path: None,
            repo_name: String::new(),
            current_branch: String::new(),
            git_version,
            focus: Panel::Left,
            left_tab: LeftTab::Changes,
            center_view: CenterView::Diff,
            input_mode: InputMode::Normal,
            input: String::new(),
            changes: ChangesState::default(),
            history: HistoryState::default(),
            branches: BranchState::default(),
            filetree: FileTreeState::new(),
            editor: EditorState::default(),
            diff: DiffState::default(),
            runner: CmdRunner::new(),
            recent,
            recent_list,
            recent_selected: 0,
            status_msg: None,
            error_msg: None,
            help_open: false,
            should_quit: false,
            watching: false,
            rects: Rects::default(),
        }
    }
}

impl App {
    /// The key hints of the status bar for the panel under focus.
    pub open spec fn hint_spec(o: App) -> Seq<char> {
        match o.focus {
            Panel::Left => match o.left_tab {
                LeftTab::Changes => "space 暂存/取消  Enter 差异  a 全部  c 提交  u 取消暂存"@,
                LeftTab::Files => "Enter 展开/打开  e 编辑  h 收起  ] 切到变更"@,
            },
            Panel::Center => match o.center_view {
                CenterView::Diff => "v 左右/统一  n/N 差异点  j/k 滚动"@,
                CenterView::Editor => "编辑中… Ctrl+S 保存  Esc 退出编辑"@,
                CenterView::HistoryDiff => "j/k 滚动"@,
            },
            Panel::History => "Enter 查看提交文件  Esc 返回"@,
            Panel::Terminal => "i 输入命令  Ctrl+C 中断  t 收起"@,
        }
    }

    pub fn hint(&self) -> (r: String)
        ensures
            r@ == Self::hint_spec(*self),
    {
        match self.focus {
            Panel::Left => match self.left_tab {
                LeftTab::Changes => "space 暂存/取消  Enter 差异  a 全部  c 提交  u 取消暂存".to_string(),
                LeftTab::Files => "Enter 展开/打开  e 编辑  h 收起  ] 切到变更".to_string(),
            },
            Panel::Center => match self.center_view {
                CenterView::Diff => "v 左右/统一  n/N 差异点  j/k 滚动".to_string(),
                CenterView::Editor => "编辑中… Ctrl+S 保存  Esc 退出编辑".to_string(),
                CenterView::HistoryDiff => "j/k 滚动".to_string(),
            },
            Panel::History => "Enter 查看提交文件  Esc 返回".to_string(),
            Panel::Terminal => "i 输入命令  Ctrl+C 中断  t 收起".to_string(),
        }
    }
}

} // verus!
