//! The one entry point of the application state: `App::update` takes an
//! action and answers with the outside work it asks for. `App::can_update`
//! tells beforehand whether an action can be taken without failing (for want
//! of a repository, by an index overflow, or by a cut inside a character).
use vstd::prelude::*;
use vstd::string::StringSliceAdditionalSpecFns;

use crate::app::keys::{cleared, is_char, none};
use crate::app::ops::{
    hunk_positions, law_hunks_are_changed_rows, law_stage_all_takes_every_unstaged, not_staged, path_of, unstaged_list,
    unstaged_paths,
};
use crate::app::{
    clamp_index, clamp_sel, is_text, App, BranchState, CenterView, ChangesState, EditorState, HistoryState,
    InputMode, LeftTab, Mode, Panel,
};
use crate::edit::{bytes_of, lemma_insert_then_remove, lemma_split_at_boundary, prev_boundary_ok};
use vstd::utf8::decode_utf8;
use vstd::utf8::is_char_boundary;
use crate::diff::{row_seq, DiffTag};
use crate::event::{ev, effect_views, Action, Effect, EffectKind, EffectView, Key, KeyCode, Mouse, MouseKind};
use crate::filetree::{flat_views, FileTreeState};
use crate::git::listing::same_text;
use crate::git::strings;
use crate::git::trimmed;
use crate::git::types::{BranchInfo, DiffSides};
use crate::terminal::{pushed, texts, CmdRunner};
use crate::text::{int_text, join_with, lemma_join_split_piece, trim, CharClass};
use crate::ui::{sat_sub, window_fits};

verus! {

broadcast use vstd::utf8::group_utf8_lib;

/// The name of the first current branch at or after position `i`; empty
/// when there is none.
pub open spec fn current_name(items: Seq<BranchInfo>, i: int) -> Seq<char>
    decreases items.len() - i,
{
    if i >= items.len() || i < 0 {
        seq![]
    } else if items[i].is_current {
        items[i].name@
    } else {
        current_name(items, i + 1)
    }
}

fn current_branch_name(items: &Vec<BranchInfo>) -> (r: String)
    ensures
        r@ == current_name(items@, 0),
{
    let mut i: usize = 0;
    while i < items.len()
        invariant
            0 <= i <= items.len(),
            current_name(items@, 0) == current_name(items@, i as int),
        decreases items.len() - i,
    {
        if items[i].is_current {
            return items[i].name.clone();
        }
        i = i + 1;
    }
    String::new()
}

/// `window_fits`, computed.
fn fits(total: usize, selected: usize, height: usize) -> (r: bool)
    ensures
        r == window_fits(total as int, selected as int, height as int),
{
    if total > height && height > 0 {
        selected.saturating_sub(height / 2) <= usize::MAX - height
    } else {
        true
    }
}

/// `App::step_ok`, computed.
fn step_fits(cur: usize, dir: i32, len: usize) -> (r: bool)
    ensures
        r == App::step_ok(cur, dir as int, len as nat),
{
    !(len > 0 && dir > 0) || cur < usize::MAX
}

/// The text is more than white space.
fn has_text(s: &String) -> (r: bool)
    ensures
        r == (trim(s@, CharClass::Whitespace).len() > 0),
{
    let t = trimmed(s.as_str());
    !t.as_str().is_empty()
}

impl App {
    /// The actions that can be taken: keys and mouse events under the
    /// conditions of `key_ok` and `mouse_ok`, everything else always.
    pub open spec fn update_ok(o: App, a: Action) -> bool {
        match a {
            Action::Key(k) => Self::key_ok(o, k),
            Action::Mouse(m) => Self::mouse_ok(o, m),
            _ => true,
        }
    }

    /// What each action does to the state and which outside work it asks
    /// for.
    pub open spec fn update_post(o: App, a: Action, n: App, e: Seq<EffectView>) -> bool {
        match a {
            Action::Tick => n == o && e == if o.runner.running {
                seq![ev(EffectKind::PollCommand, seq![])]
            } else {
                Seq::<EffectView>::empty()
            },
            Action::Key(k) => Self::key_post(o, k, n, e),
            Action::Mouse(m) => n == Self::mouse_spec(o, m) && e == Seq::<EffectView>::empty(),
            Action::Resize => n == o && e == Seq::<EffectView>::empty(),
            Action::RepoOpened { path, name } => Self::repo_opened_post(o, path@, name@, n, e),
            Action::StatusLoaded(items) => e == Seq::<EffectView>::empty() && n == (App {
                changes: ChangesState { items, selected: clamp_sel(o.changes.selected, items@.len()) },
                ..o
            }),
            Action::LogLoaded(commits) => e == Seq::<EffectView>::empty() && n == (App {
                history: HistoryState { commits, selected: clamp_sel(o.history.selected, commits@.len()), ..o.history },
                ..o
            }),
            Action::BranchesLoaded(items) => {
                &&& e == Seq::<EffectView>::empty()
                &&& n == (App {
                    branches: BranchState {
                        items,
                        current: n.branches.current,
                        selected: clamp_sel(o.branches.selected, items@.len()),
                        ..o.branches
                    },
                    ..o
                })
                &&& n.branches.current@ == current_name(items@, 0)
            },
            Action::CurrentBranchLoaded(b) => e == Seq::<EffectView>::empty() && n == (App { current_branch: b, ..o }),
            Action::DiffLoaded { path, staged, untracked, sides, unified } => e == Seq::<EffectView>::empty()
                && Self::diff_loaded_post(o, path, staged, untracked, sides, unified, n),
            Action::CommitFilesLoaded { hash, files } => e == Seq::<EffectView>::empty() && if o.history.selected_hash
                matches Some(h) && h@ == hash@ {
                n == (App { history: HistoryState { files, files_selected: 0, ..o.history }, ..o })
            } else {
                n == o
            },
            Action::HistoryDiffLoaded { path, content } => e == Seq::<EffectView>::empty() && n == (App {
                history: HistoryState { detail: Some((path, content)), detail_scroll: 0, ..o.history },
                center_view: CenterView::HistoryDiff,
                focus: Panel::Center,
                ..o
            }),
            Action::DirLoaded { path, entries } => {
                &&& e == Seq::<EffectView>::empty()
                &&& n == (App { filetree: n.filetree, ..o })
                &&& n.filetree.open == o.filetree.open
                &&& n.filetree.selected == o.filetree.selected
                &&& if path@.len() == 0 {
                    n.filetree.root == entries && n.filetree.children == o.filetree.children
                } else {
                    n.filetree.children@ == o.filetree.children@.insert(path@, entries) && n.filetree.root
                        == o.filetree.root
                }
            },
            Action::FileLoaded { path, content } => e == Seq::<EffectView>::empty() && Self::file_loaded_post(
                o,
                path,
                content@,
                n,
            ),
            Action::FileSaved => {
                &&& n == (App { editor: EditorState { dirty: false, ..o.editor }, status_msg: n.status_msg, ..o })
                &&& is_text(n.status_msg, "已保存"@)
                &&& e == o.reload_status_spec()
            },
            Action::OpFinished(msg) => n == (App { status_msg: Some(msg), ..o }) && e == o.reload_ops_spec(),
            Action::Error(msg) => n == (App { error_msg: Some(msg), ..o }) && e == Seq::<EffectView>::empty(),
            Action::RepoChanged => n == o && e == o.reload_status_spec(),
            Action::CmdOutput { data } => Self::output_post(o, n, data@) && e == Seq::<EffectView>::empty(),
            Action::CmdStarted => n == (App { runner: CmdRunner { running: true, ..o.runner }, ..o }) && e
                == Seq::<EffectView>::empty(),
            Action::CmdStartFailed(err) => Self::output_post(o, n, "[启动失败] "@ + err@) && e == Seq::<
                EffectView,
            >::empty(),
            Action::CmdExited(code) => {
                let stopped = App { runner: CmdRunner { running: false, ..o.runner }, ..o };
                &&& Self::output_post(
                    stopped,
                    n,
                    "[退出: "@ + match code {
                        Some(c) => int_text(c as int),
                        None => "signal"@,
                    } + "]"@,
                )
                &&& e == Seq::<EffectView>::empty()
            },
            Action::RecentLoaded(list) => e == Seq::<EffectView>::empty() && n == (App {
                recent_list: list,
                recent_selected: clamp_sel(o.recent_selected, list@.len()),
                ..o
            }),
        }
    }

    /// Only the scroll-back changed: it took the lines of `text`.
    pub open spec fn output_post(o: App, n: App, text: Seq<char>) -> bool {
        &&& n == (App { runner: CmdRunner { output: n.runner.output, ..o.runner }, ..o })
        &&& texts(n.runner.output@) == pushed(texts(o.runner.output@), text)
    }

    fn update_loaded(&mut self, action: Action) -> (r: Vec<Effect>)
        requires
            action matches Action::StatusLoaded(_) || action matches Action::LogLoaded(_) || action matches Action::BranchesLoaded(_) || action matches Action::CurrentBranchLoaded(_) || action matches Action::DiffLoaded { .. } || action matches Action::CommitFilesLoaded { .. } || action matches Action::HistoryDiffLoaded { .. } || action matches Action::DirLoaded { .. } || action matches Action::FileLoaded { .. },
        ensures
            Self::update_post(*old(self), action, *final(self), effect_views(r@)),
    {
        match action {
            Action::StatusLoaded(items) => {
                let len = items.len();
                self.changes.items = items;
                self.changes.selected = clamp_index(self.changes.selected, len);
                none()
            },
            Action::LogLoaded(commits) => {
                let len = commits.len();
                self.history.commits = commits;
                self.history.selected = clamp_index(self.history.selected, len);
                none()
            },
            Action::BranchesLoaded(items) => {
                self.branches.current = current_branch_name(&items);
                let len = items.len();
                self.branches.items = items;
                self.branches.selected = clamp_index(self.branches.selected, len);
                none()
            },
            Action::CurrentBranchLoaded(b) => {
                self.current_branch = b;
                none()
            },
            Action::DiffLoaded { path, staged, untracked, sides, unified } => {
                self.on_diff_loaded(path, staged, untracked, sides, unified);
                none()
            },
            Action::CommitFilesLoaded { hash, files } => {
                let same = match &self.history.selected_hash {
                    Some(h) => same_text(h.as_str(), hash.as_str()),
                    None => false,
                };
                if same {
                    self.history.files = files;
                    self.history.files_selected = 0;
                }
                none()
            },
            Action::HistoryDiffLoaded { path, content } => {
                self.history.detail = Some((path, content));
                self.history.detail_scroll = 0;
                self.center_view = CenterView::HistoryDiff;
                self.focus = Panel::Center;
                none()
            },
            Action::DirLoaded { path, entries } => {
                self.filetree.set_listing(path, entries);
                none()
            },
            Action::FileLoaded { path, content } => {
                self.on_file_loaded(path, content);
                none()
            },
            _ => none(),
        }
    }

    fn update_runner(&mut self, action: Action) -> (r: Vec<Effect>)
        requires
            action matches Action::Tick || action matches Action::CmdOutput { .. } || action matches Action::CmdStarted || action matches Action::CmdStartFailed(_) || action matches Action::CmdExited(_),
        ensures
            Self::update_post(*old(self), action, *final(self), effect_views(r@)),
    {
        match action {
            Action::Tick => {
                if self.runner.running {
                    let mut effects: Vec<Effect> = Vec::new();
                    effects.push(Effect::PollCommand);
                    assert(effect_views(effects@) =~= seq![ev(EffectKind::PollCommand, seq![])]);
                    effects
                } else {
                    none()
                }
            },
            Action::CmdOutput { data } => {
                self.runner.push_output(data);
                none()
            },
            Action::CmdStarted => {
                self.runner.started();
                none()
            },
            Action::CmdStartFailed(err) => {
                self.runner.start_failed(err.as_str());
                none()
            },
            Action::CmdExited(code) => {
                self.runner.exited(code);
                none()
            },
            _ => none(),
        }
    }

    fn update_other(&mut self, action: Action) -> (r: Vec<Effect>)
        requires
            action matches Action::Resize || action matches Action::RepoOpened { .. } || action matches Action::FileSaved || action matches Action::OpFinished(_) || action matches Action::Error(_) || action matches Action::RepoChanged || action matches Action::RecentLoaded(_),
        ensures
            Self::update_post(*old(self), action, *final(self), effect_views(r@)),
    {
        match action {
            Action::Resize => none(),
            Action::RepoOpened { path, name } => {
                let mut effects: Vec<Effect> = Vec::new();
                self.on_repo_opened(path, name, &mut effects);
                assert(effect_views(effects@).skip(0) =~= effect_views(effects@));
                effects
            },
            Action::FileSaved => {
                self.editor.dirty = false;
                let mut effects: Vec<Effect> = Vec::new();
                self.reload_status(&mut effects);
                assert(effect_views(effects@) =~= self.reload_status_spec());
                let saved = "已保存".to_string();
                self.status_msg = Some(saved);
                effects
            },
            Action::OpFinished(msg) => {
                self.status_msg = Some(msg);
                let mut effects: Vec<Effect> = Vec::new();
                self.reload_ops(&mut effects);
                assert(effect_views(effects@) =~= self.reload_ops_spec());
                effects
            },
            Action::Error(msg) => {
                self.error_msg = Some(msg);
                none()
            },
            Action::RepoChanged => {
                let mut effects: Vec<Effect> = Vec::new();
                self.reload_status(&mut effects);
                assert(effect_views(effects@) =~= self.reload_status_spec());
                effects
            },
            Action::RecentLoaded(list) => {
                let len = list.len();
                self.recent_list = list;
                self.recent_selected = clamp_index(self.recent_selected, len);
                none()
            },
            _ => none(),
        }
    }

    /// Takes one action (see `update_post`).
    pub fn update(&mut self, action: Action) -> (r: Vec<Effect>)
        requires
            Self::update_ok(*old(self), action),
        ensures
            Self::update_post(*old(self), action, *final(self), effect_views(r@)),
    {
        match action {
            Action::Key(k) => self.handle_key(k),
            Action::Mouse(m) => {
                self.handle_mouse(m);
                none()
            },
            Action::StatusLoaded(_) | Action::LogLoaded(_) | Action::BranchesLoaded(_) | Action::CurrentBranchLoaded(_)
            | Action::DiffLoaded { .. } | Action::CommitFilesLoaded { .. } | Action::HistoryDiffLoaded { .. }
            | Action::DirLoaded { .. } | Action::FileLoaded { .. } => self.update_loaded(action),
            Action::Tick | Action::CmdOutput { .. } | Action::CmdStarted | Action::CmdStartFailed(_)
            | Action::CmdExited(_) => self.update_runner(action),
            _ => self.update_other(action),
        }
    }
}

impl App {
    // -----------------------------------------------------------------------
    // The conditions, computed
    // -----------------------------------------------------------------------

    /// Whether `update` can take `action` (exactly `update_ok`).
    pub fn can_update(&self, action: &Action) -> (r: bool)
        ensures
            r == Self::update_ok(*self, *action),
    {
        match action {
            Action::Key(k) => self.key_allowed(*k),
            Action::Mouse(m) => self.mouse_allowed(*m),
            _ => true,
        }
    }

    fn key_allowed(&self, k: Key) -> (r: bool)
        ensures
            r == Self::key_ok(*self, k),
    {
        if k.release {
            true
        } else if k.ctrl {
            !(k.code == KeyCode::Char('s') && self.input_mode == InputMode::Edit) || !self.editor.dirty
                || self.repo_path.is_some()
        } else {
            match self.input_mode {
                InputMode::Path | InputMode::Commit | InputMode::Branch | InputMode::Command => self.input_key_allowed(
                    k.code,
                ),
                InputMode::Edit => self.edit_key_allowed(k.code),
                InputMode::Normal => self.help_open || match self.mode {
                    Mode::Welcome => !(k.code == KeyCode::Char('j') || k.code == KeyCode::Down) || self.recent_selected
                        < usize::MAX,
                    Mode::Workspace => self.workspace_key_allowed(k.code),
                },
            }
        }
    }

    fn input_key_allowed(&self, code: KeyCode) -> (r: bool)
        ensures
            r == Self::input_key_ok(*self, code),
    {
        match code {
            KeyCode::Enter => match self.input_mode {
                InputMode::Commit | InputMode::Branch => !has_text(&self.input) || self.repo_path.is_some(),
                _ => true,
            },
            KeyCode::Up => self.input_mode != InputMode::Command || self.runner.history.len() == 0 || match self.runner.hist_idx {
                Some(i) => i == 0 || i - 1 < self.runner.history.len(),
                None => true,
            },
            KeyCode::Down => self.input_mode != InputMode::Command || self.runner.history.len() == 0 || match self.runner.hist_idx {
                Some(i) => i < usize::MAX,
                None => true,
            },
            _ => true,
        }
    }

    fn edit_key_allowed(&self, code: KeyCode) -> (r: bool)
        ensures
            r == Self::edit_key_ok(*self, code),
    {
        let cl = self.editor.cursor_line;
        let col = self.editor.cursor_col;
        let on_line = cl < self.editor.lines.len();
        let line: &str = if on_line {
            self.editor.lines[cl].as_str()
        } else {
            ""
        };
        proof {
            reveal_strlit("");
        }
        let ghost b = if on_line {
            bytes_of(self.editor.lines@[cl as int]@)
        } else {
            Seq::<u8>::empty()
        };
        assert(line.spec_bytes() == b);
        let len = line.as_bytes().len();
        let at_col = line.is_char_boundary(col);
        let before = if col <= len {
            col
        } else {
            len
        };
        let prev_ok = col == 0 || line.is_char_boundary(before);
        assert(at_col == is_char_boundary(b, col as int));
        assert(prev_ok == prev_boundary_ok(b, col as int));
        assert(len == b.len());
        match code {
            KeyCode::Char(_) => !on_line || at_col,
            KeyCode::Backspace => if col > 0 {
                !on_line || (prev_ok && len > 0)
            } else {
                !(cl > 0) || on_line
            },
            KeyCode::Enter => on_line && at_col,
            KeyCode::Left => !on_line || prev_ok,
            KeyCode::Down => cl < usize::MAX,
            KeyCode::End => on_line,
            _ => true,
        }
    }

    fn workspace_key_allowed(&self, code: KeyCode) -> (r: bool)
        ensures
            r == Self::workspace_key_ok(*self, code),
    {
        let down = code == KeyCode::Char('j') || code == KeyCode::Down;
        if self.branches.visible {
            (!down || self.branches.selected < usize::MAX) && (!(code == KeyCode::Enter) || !(self.branches.selected
                < self.branches.items.len()) || self.repo_path.is_some())
        } else if code == KeyCode::Char('P') || code == KeyCode::Char('F') {
            self.repo_path.is_some()
        } else if code == KeyCode::Char('q') || code == KeyCode::Char('?') || code == KeyCode::Char('t') || code
            == KeyCode::Char('r') || code == KeyCode::Char('x') || code == KeyCode::Char('b') || code == KeyCode::Tab
            || code == KeyCode::BackTab || code == KeyCode::Char('1') || code == KeyCode::Char('2') || code
            == KeyCode::Char('3') || code == KeyCode::Char('4') || code == KeyCode::Char('[') || code == KeyCode::Char(
            ']',
        ) {
            true
        } else {
            match self.focus {
                Panel::Left => self.left_key_allowed(code),
                Panel::Center => {
                    if self.center_view == CenterView::Diff {
                        let n = self.diff.hunks.len();
                        (!(code == KeyCode::Char('N')) || n == 0 || self.diff.hunk_idx < usize::MAX) && (!(code
                            == KeyCode::Char('n')) || n == 0 || n - 1 <= usize::MAX - self.diff.hunk_idx)
                    } else {
                        true
                    }
                },
                Panel::History => {
                    if self.history.in_files {
                        (!down || self.history.files_selected < usize::MAX) && (!(code == KeyCode::Enter) || !(
                        self.history.selected_hash.is_some() && self.history.files_selected < self.history.files.len())
                            || self.repo_path.is_some())
                    } else {
                        (!down || self.history.selected < usize::MAX) && (!(code == KeyCode::Enter) || !(
                        self.history.selected < self.history.commits.len()) || self.repo_path.is_some())
                    }
                },
                Panel::Terminal => true,
            }
        }
    }

    fn left_key_allowed(&self, code: KeyCode) -> (r: bool)
        ensures
            r == Self::left_key_ok(*self, code),
    {
        let down = code == KeyCode::Char('j') || code == KeyCode::Down;
        match self.left_tab {
            LeftTab::Changes => {
                let selected_ok = !(self.changes.selected < self.changes.items.len()) || self.repo_path.is_some();
                let paths = unstaged_list(&self.changes.items);
                assert(strings(paths@).len() == paths@.len());
                (!down || self.changes.selected < usize::MAX) && (!(code == KeyCode::Char(' ') || code
                    == KeyCode::Char('u') || code == KeyCode::Enter) || selected_ok) && (!(code == KeyCode::Char('a'))
                    || paths.len() == 0 || self.repo_path.is_some())
            },
            LeftTab::Files => {
                let rows = self.filetree.flat();
                assert(flat_views(rows@).len() == rows@.len());
                let row_ok = !(self.filetree.selected < rows.len()) || self.repo_path.is_some();
                (!down || self.filetree.selected < usize::MAX) && (!(code == KeyCode::Enter || code == KeyCode::Char(
                    'l',
                ) || code == KeyCode::Char('e')) || row_ok)
            },
        }
    }

    fn mouse_allowed(&self, m: Mouse) -> (r: bool)
        ensures
            r == Self::mouse_ok(*self, m),
    {
        self.help_open || match m.kind {
            MouseKind::LeftDown => self.click_allowed(m.column, m.row),
            MouseKind::ScrollUp => self.scroll_allowed(-1),
            MouseKind::ScrollDown => self.scroll_allowed(1),
            MouseKind::Other => true,
        }
    }

    fn click_allowed(&self, x: u16, y: u16) -> (r: bool)
        ensures
            r == Self::click_ok(*self, x, y),
    {
        let rects = &self.rects;
        if self.mode == Mode::Welcome {
            !rects.recent_list.contains(x, y) || fits(
                self.recent_list.len(),
                self.recent_selected,
                rects.recent_list.height as usize,
            )
        } else if self.runner.visible && rects.terminal.contains(x, y) {
            true
        } else if rects.left.contains(x, y) {
            !rects.left_list.contains(x, y) || match self.left_tab {
                LeftTab::Changes => fits(
                    self.changes.items.len(),
                    self.changes.selected,
                    rects.left_list.height as usize,
                ),
                LeftTab::Files => {
                    let rows = self.filetree.flat();
                    assert(flat_views(rows@).len() == rows@.len());
                    fits(rows.len(), self.filetree.selected, rects.left_list.height as usize)
                },
            }
        } else if rects.center.contains(x, y) {
            true
        } else if rects.history.contains(x, y) {
            !rects.history_list.contains(x, y) || if self.history.in_files {
                fits(self.history.files.len(), self.history.files_selected, rects.history_list.height as usize)
            } else {
                fits(self.history.commits.len(), self.history.selected, rects.history_list.height as usize / 2)
            }
        } else {
            true
        }
    }

    fn scroll_allowed(&self, dir: i32) -> (r: bool)
        ensures
            r == Self::scroll_ok(*self, dir as int),
    {
        match self.mode {
            Mode::Welcome => step_fits(self.recent_selected, dir, self.recent_list.len()),
            Mode::Workspace => match self.focus {
                Panel::Left => match self.left_tab {
                    LeftTab::Changes => step_fits(self.changes.selected, dir, self.changes.items.len()),
                    LeftTab::Files => {
                        let rows = self.filetree.flat();
                        assert(flat_views(rows@).len() == rows@.len());
                        step_fits(self.filetree.selected, dir, rows.len())
                    },
                },
                Panel::Center => match self.center_view {
                    CenterView::Diff => !(dir > 0) || self.diff.scroll < usize::MAX,
                    CenterView::HistoryDiff => !(dir > 0) || self.history.detail_scroll < usize::MAX,
                    CenterView::Editor => step_fits(self.editor.cursor_line, dir, self.editor.lines.len()),
                },
                Panel::History => if self.history.in_files {
                    step_fits(self.history.files_selected, dir, self.history.files.len())
                } else {
                    step_fits(self.history.selected, dir, self.history.commits.len())
                },
                Panel::Terminal => !(dir > 0) || self.runner.scroll < usize::MAX,
            },
        }
    }
}

/// Typing a character in the editor puts it at the cursor (the line's bytes
/// before the cursor, the character, the bytes after it; other lines
/// unchanged), moves the cursor past it and marks the file changed; pressing
/// Backspace then gives back the lines and the cursor, still in edit mode.
pub proof fn law_type_then_backspace(o: App, c: char, m: App, n: App, e1: Seq<EffectView>, e2: Seq<EffectView>)
    requires
        o.input_mode == InputMode::Edit,
        o.editor.cursor_line < o.editor.lines@.len(),
        o.editor.cursor_col + 4 <= usize::MAX,
        App::update_ok(o, Action::Key(Key { code: KeyCode::Char(c), ctrl: false, release: false })),
        App::update_post(o, Action::Key(Key { code: KeyCode::Char(c), ctrl: false, release: false }), m, e1),
        App::update_post(m, Action::Key(Key { code: KeyCode::Backspace, ctrl: false, release: false }), n, e2),
    ensures
        bytes_of(texts(m.editor.lines@)[o.editor.cursor_line as int]) == bytes_of(
            texts(o.editor.lines@)[o.editor.cursor_line as int],
        ).take(o.editor.cursor_col as int) + bytes_of(seq![c]) + bytes_of(
            texts(o.editor.lines@)[o.editor.cursor_line as int],
        ).skip(o.editor.cursor_col as int),
        texts(m.editor.lines@) == texts(o.editor.lines@).update(
            o.editor.cursor_line as int,
            texts(m.editor.lines@)[o.editor.cursor_line as int],
        ),
        m.editor.cursor_line == o.editor.cursor_line,
        m.editor.cursor_col == o.editor.cursor_col + bytes_of(seq![c]).len(),
        m.editor.dirty,
        m.input_mode == InputMode::Edit,
        texts(n.editor.lines@) == texts(o.editor.lines@),
        n.editor.cursor_line == o.editor.cursor_line,
        n.editor.cursor_col == o.editor.cursor_col,
        n.input_mode == InputMode::Edit,
{
    let cl = o.editor.cursor_line as int;
    let col = o.editor.cursor_col as int;
    let lines = texts(o.editor.lines@);
    let b = bytes_of(lines[cl]);
    assert(lines[cl] == o.editor.lines@[cl]@);
    lemma_insert_then_remove(b, col, c);
    let w = bytes_of(seq![c]).len() as int;
    let nb = b.take(col) + bytes_of(seq![c]) + b.skip(col);
    let mid = lines.update(cl, decode_utf8(nb));
    assert(texts(m.editor.lines@) == mid);
    assert(m.editor.cursor_col == col + w);
    assert(mid[cl] == m.editor.lines@[cl]@);
    assert(bytes_of(mid[cl]) == nb);
    assert(texts(n.editor.lines@) == mid.update(cl, decode_utf8(b)));
    assert(decode_utf8(b) == lines[cl]);
    assert(mid.update(cl, decode_utf8(b)) =~= lines);
}

/// The workspace is shown exactly when a repository is open: `App::new`
/// starts on the welcome screen without one, and every action keeps the two
/// together (opening sets both, closing clears both).
pub proof fn law_workspace_iff_repository(o: App, a: Action, n: App, e: Seq<EffectView>)
    requires
        (o.mode == Mode::Workspace) == (o.repo_path is Some),
        App::update_post(o, a, n, e),
    ensures
        (n.mode == Mode::Workspace) == (n.repo_path is Some),
{
}

proof fn lemma_enter_lines(lines: Seq<Seq<char>>, l: int, x: Seq<char>, y: Seq<char>)
    requires
        0 <= l < lines.len(),
        x + y == lines[l],
    ensures
        ({
            let ml = lines.update(l, x).insert(l + 1, y);
            &&& ml.len() == lines.len() + 1
            &&& ml[l] == x && ml[l + 1] == y
            &&& join_with(ml, '\n') == join_with(ml.take(l + 1), '\n') + seq!['\n'] + join_with(ml.skip(l + 1), '\n')
            &&& join_with(lines, '\n') == join_with(ml.take(l + 1), '\n') + join_with(ml.skip(l + 1), '\n')
            &&& ml.remove(l + 1).update(l, ml[l] + ml[l + 1]) == lines
        }),
{
    let ml = lines.update(l, x).insert(l + 1, y);
    lemma_join_split_piece(lines, l, x, y, '\n');
    let p = lines.take(l).push(x);
    let q = seq![y] + lines.skip(l + 1);
    assert(ml.take(l + 1) =~= p);
    assert(ml.skip(l + 1) =~= q);
    assert(ml.remove(l + 1).update(l, ml[l] + ml[l + 1]) =~= lines);
}

/// Enter in the editor splits the cursor line at the cursor: the file's
/// text (its lines joined by `\n`) gets one line break there and nothing
/// else, there is one more line, the cursor goes to the start of the new
/// line and the file is marked changed; Backspace then gives back the lines
/// and the cursor, still in edit mode.
#[verifier::rlimit(40)]
pub proof fn law_enter_then_backspace(o: App, m: App, n: App, e1: Seq<EffectView>, e2: Seq<EffectView>)
    requires
        o.input_mode == InputMode::Edit,
        App::update_ok(o, Action::Key(Key { code: KeyCode::Enter, ctrl: false, release: false })),
        App::update_post(o, Action::Key(Key { code: KeyCode::Enter, ctrl: false, release: false }), m, e1),
        App::update_post(m, Action::Key(Key { code: KeyCode::Backspace, ctrl: false, release: false }), n, e2),
    ensures
        ({
            let l = o.editor.cursor_line as int;
            let ml = texts(m.editor.lines@);
            &&& ml.len() == texts(o.editor.lines@).len() + 1
            &&& join_with(ml, '\n') == join_with(ml.take(l + 1), '\n') + seq!['\n'] + join_with(ml.skip(l + 1), '\n')
            &&& join_with(texts(o.editor.lines@), '\n') == join_with(ml.take(l + 1), '\n') + join_with(ml.skip(l + 1), '\n')
        }),
        m.editor.cursor_line == o.editor.cursor_line + 1,
        m.editor.cursor_col == 0,
        m.editor.dirty,
        m.input_mode == InputMode::Edit,
        texts(n.editor.lines@) == texts(o.editor.lines@),
        n.editor.cursor_line == o.editor.cursor_line,
        n.editor.cursor_col == o.editor.cursor_col,
        n.input_mode == InputMode::Edit,
{
    let l = o.editor.cursor_line as int;
    let col = o.editor.cursor_col as int;
    let lines = texts(o.editor.lines@);
    assert(lines[l] == o.editor.lines@[l]@);
    let b = bytes_of(lines[l]);
    lemma_split_at_boundary(lines[l], col);
    let x = decode_utf8(b.take(col));
    let y = decode_utf8(b.skip(col));
    lemma_enter_lines(lines, l, x, y);
    assert(o.editor.lines.len() == o.editor.lines@.len());
    assert(App::edit_key_post(cleared(o), KeyCode::Enter, m, e1));
    assert(texts(m.editor.lines@) == lines.update(l, x).insert(l + 1, y));
    assert(m.editor.cursor_line == l + 1);
    assert(m.input_mode == InputMode::Edit);
    assert(App::edit_key_post(cleared(m), KeyCode::Backspace, n, e2));
}

/// In the editor, Up moves the cursor one line up (staying on the first
/// line) and Down one line down (staying on the last), the column taken no
/// further than the end of the line reached; the lines do not change.
pub proof fn law_edit_up_down(o: App, n: App, e: Seq<EffectView>, down: bool)
    requires
        o.input_mode == InputMode::Edit,
        App::update_post(
            o,
            Action::Key(Key { code: if down { KeyCode::Down } else { KeyCode::Up }, ctrl: false, release: false }),
            n,
            e,
        ),
    ensures
        ({
            let cl = o.editor.cursor_line as int;
            let len = o.editor.lines@.len() as int;
            let line = if down {
                if cl + 1 < len {
                    cl + 1
                } else if len > 0 {
                    len - 1
                } else {
                    0
                }
            } else if cl > 0 {
                cl - 1
            } else {
                0
            };
            &&& n.editor.cursor_line == line
            &&& n.editor.cursor_col == if line < len && o.editor.cursor_col > bytes_of(o.editor.lines@[line]@).len() {
                bytes_of(o.editor.lines@[line]@).len() as int
            } else {
                o.editor.cursor_col as int
            }
            &&& n.editor.lines == o.editor.lines
            &&& n.editor.dirty == o.editor.dirty
            &&& n.input_mode == InputMode::Edit
            &&& e.len() == 0
        }),
{
    let len = o.editor.lines@.len();
    assert(o.editor.lines.len() == len);
    if down {
        assert(App::edit_key_post(cleared(o), KeyCode::Down, n, e));
    } else {
        assert(App::edit_key_post(cleared(o), KeyCode::Up, n, e));
    }
}

/// Stage-all (`a` on the changes list) asks `git` to stage, in one go and in
/// the list's order, every change that is not staged yet, modified and
/// untracked alike; nothing is asked when all are staged. Only the messages
/// are cleared.
pub proof fn law_stage_all_key(o: App, n: App, e: Seq<EffectView>)
    requires
        o.mode == Mode::Workspace,
        o.input_mode == InputMode::Normal,
        !o.help_open,
        !o.branches.visible,
        o.focus == Panel::Left,
        o.left_tab == LeftTab::Changes,
        App::update_post(o, Action::Key(Key { code: KeyCode::Char('a'), ctrl: false, release: false }), n, e),
    ensures
        n == cleared(o),
        ({
            let paths = o.changes.items@.filter(not_staged()).map_values(path_of());
            e == if paths.len() > 0 {
                seq![ev(EffectKind::Stage, seq![o.repo_path->0@] + paths)]
            } else {
                Seq::<EffectView>::empty()
            }
        }),
{
    law_stage_all_takes_every_unstaged(o.changes.items@);
    assert(App::changes_key_post(cleared(o), KeyCode::Char('a'), n, e));
}

/// After a diff arrives its difference points are exactly its changed rows:
/// each is the position of a row that is not an equal line, they rise
/// strictly, every modified, deleted or added row is one of them, and the
/// first is current.
pub proof fn law_loaded_diff_points(
    o: App,
    path: String,
    staged: bool,
    untracked: bool,
    sides: DiffSides,
    unified: String,
    n: App,
    e: Seq<EffectView>,
)
    requires
        App::update_post(o, Action::DiffLoaded { path, staged, untracked, sides, unified }, n, e),
    ensures
        n.diff.hunk_idx == 0,
        forall|k: int|
            0 <= k < n.diff.hunks@.len() ==> #[trigger] n.diff.hunks@[k] < n.diff.rows@.len()
                && n.diff.rows@[n.diff.hunks@[k] as int].tag != DiffTag::Equal,
        forall|k1: int, k2: int|
            0 <= k1 < k2 < n.diff.hunks@.len() ==> #[trigger] n.diff.hunks@[k1] < #[trigger] n.diff.hunks@[k2],
        forall|i: int|
            0 <= i < n.diff.rows@.len() && (#[trigger] n.diff.rows@[i]).tag != DiffTag::Equal
                ==> n.diff.hunks@.contains(i as usize),
{
    let rows = row_seq(n.diff.rows@);
    assert(n.diff.rows.len() == n.diff.rows@.len());
    law_hunks_are_changed_rows(rows);
    assert forall|i: int| 0 <= i < n.diff.rows@.len() implies rows[i].0 == n.diff.rows@[i].tag by {}
    assert forall|k: int| 0 <= k < n.diff.hunks@.len() implies #[trigger] n.diff.hunks@[k] < n.diff.rows@.len()
        && n.diff.rows@[n.diff.hunks@[k] as int].tag != DiffTag::Equal by {
        assert(n.diff.hunks@[k] == hunk_positions(rows)[k]);
        assert(rows[n.diff.hunks@[k] as int].0 == n.diff.rows@[n.diff.hunks@[k] as int].tag);
    }
    assert forall|i: int| 0 <= i < n.diff.rows@.len() && (#[trigger] n.diff.rows@[i]).tag != DiffTag::Equal
        implies n.diff.hunks@.contains(i as usize) by {
        assert(rows[i].0 == n.diff.rows@[i].tag);
    }
}

} // verus!
