//! Mouse handling: clicks select rows and focus panels, the wheel moves the
//! selection or scrolls the panel under focus.
use vstd::prelude::*;

use crate::app::{sat_dec, App, CenterView, ChangesState, EditorState, HistoryState, LeftTab, Mode, Panel};
use crate::event::{Mouse, MouseKind};
use crate::filetree::{flat_views, FileTreeState};
use crate::terminal::CmdRunner;
use crate::ui::{window_fits, window_start, window_start_spec, Rect};

verus! {

/// One step of a selection through `len` rows: down (`dir > 0`) stops at
/// the last row, up stops at the first; an empty list selects row 0.
pub open spec fn move_idx_spec(cur: int, dir: int, len: int) -> int {
    if len == 0 {
        0
    } else if dir > 0 {
        if cur + 1 <= len - 1 {
            cur + 1
        } else {
            len - 1
        }
    } else {
        sat_dec(cur)
    }
}

/// One step of a scroll offset: down adds one, up stops at 0.
pub open spec fn add_scroll_spec(cur: int, dir: int) -> int {
    if dir > 0 {
        cur + 1
    } else {
        sat_dec(cur)
    }
}

/// See `move_idx_spec`.
pub fn move_idx(cur: usize, dir: i32, len: usize) -> (r: usize)
    requires
        len > 0 && dir > 0 ==> cur < usize::MAX,
    ensures
        r == move_idx_spec(cur as int, dir as int, len as int),
{
    if len == 0 {
        return 0;
    }
    if dir > 0 {
        let next = cur + 1;
        if next <= len - 1 {
            next
        } else {
            len - 1
        }
    } else {
        cur.saturating_sub(1)
    }
}

/// See `add_scroll_spec`.
pub fn add_scroll(cur: usize, dir: i32) -> (r: usize)
    requires
        dir > 0 ==> cur < usize::MAX,
    ensures
        r == add_scroll_spec(cur as int, dir as int),
{
    if dir > 0 {
        cur + 1
    } else {
        cur.saturating_sub(1)
    }
}

/// The row a click on line `idx` of a list window picks: the row shown
/// there, or the old selection when no row is shown there.
pub open spec fn picked_row(total: int, selected: usize, height: int, idx: int) -> usize {
    let target = window_start_spec(total, selected as int, height) + idx;
    if target < total {
        target as usize
    } else {
        selected
    }
}

fn pick_row(total: usize, selected: usize, height: usize, idx: usize) -> (r: usize)
    requires
        window_fits(total as int, selected as int, height as int),
        idx <= height,
    ensures
        r == picked_row(total as int, selected, height as int, idx as int),
{
    let start = window_start(total, selected, height);
    let target = start + idx;
    if target < total {
        target
    } else {
        selected
    }
}

impl App {
    /// The clicks and wheel steps that can be handled: the windows under the
    /// pointer fit in a `usize`, a step down does not pass `usize::MAX`, and
    /// the file tree can be flattened when it is involved.
    pub open spec fn click_ok(o: App, x: u16, y: u16) -> bool {
        if o.mode == Mode::Welcome {
            o.rects.recent_list.contains_spec(x, y) ==> window_fits(
                o.recent_list@.len() as int,
                o.recent_selected as int,
                o.rects.recent_list.height as int,
            )
        } else if o.runner.visible && o.rects.terminal.contains_spec(x, y) {
            true
        } else if o.rects.left.contains_spec(x, y) {
            o.rects.left_list.contains_spec(x, y) ==> match o.left_tab {
                LeftTab::Changes => window_fits(
                    o.changes.items@.len() as int,
                    o.changes.selected as int,
                    o.rects.left_list.height as int,
                ),
                LeftTab::Files => window_fits(
                    o.filetree.flat_spec().len() as int,
                    o.filetree.selected as int,
                    o.rects.left_list.height as int,
                ),
            }
        } else if o.rects.center.contains_spec(x, y) {
            true
        } else if o.rects.history.contains_spec(x, y) {
            o.rects.history_list.contains_spec(x, y) ==> if o.history.in_files {
                window_fits(
                    o.history.files@.len() as int,
                    o.history.files_selected as int,
                    o.rects.history_list.height as int,
                )
            } else {
                window_fits(
                    o.history.commits@.len() as int,
                    o.history.selected as int,
                    o.rects.history_list.height as int / 2,
                )
            }
        } else {
            true
        }
    }

    pub open spec fn step_ok(cur: usize, dir: int, len: nat) -> bool {
        len > 0 && dir > 0 ==> cur < usize::MAX
    }

    pub open spec fn scroll_ok(o: App, dir: int) -> bool {
        match o.mode {
            Mode::Welcome => Self::step_ok(o.recent_selected, dir, o.recent_list@.len()),
            Mode::Workspace => match o.focus {
                Panel::Left => match o.left_tab {
                    LeftTab::Changes => Self::step_ok(o.changes.selected, dir, o.changes.items@.len()),
                    LeftTab::Files => Self::step_ok(
                        o.filetree.selected,
                        dir,
                        o.filetree.flat_spec().len(),
                    ),
                },
                Panel::Center => match o.center_view {
                    CenterView::Diff => dir > 0 ==> o.diff.scroll < usize::MAX,
                    CenterView::HistoryDiff => dir > 0 ==> o.history.detail_scroll < usize::MAX,
                    CenterView::Editor => Self::step_ok(o.editor.cursor_line, dir, o.editor.lines@.len()),
                },
                Panel::History => if o.history.in_files {
                    Self::step_ok(o.history.files_selected, dir, o.history.files@.len())
                } else {
                    Self::step_ok(o.history.selected, dir, o.history.commits@.len())
                },
                Panel::Terminal => dir > 0 ==> o.runner.scroll < usize::MAX,
            },
        }
    }

    pub open spec fn mouse_ok(o: App, m: Mouse) -> bool {
        o.help_open || match m.kind {
            MouseKind::LeftDown => Self::click_ok(o, m.column, m.row),
            MouseKind::ScrollUp => Self::scroll_ok(o, -1),
            MouseKind::ScrollDown => Self::scroll_ok(o, 1),
            MouseKind::Other => true,
        }
    }

    /// A click in the left panel's list selects the row under the pointer.
    pub open spec fn click_left_spec(o: App, x: u16, y: u16) -> App {
        let list = o.rects.left_list;
        if !list.contains_spec(x, y) {
            o
        } else {
            let idx = y - list.y;
            match o.left_tab {
                LeftTab::Changes => App {
                    changes: ChangesState {
                        selected: picked_row(o.changes.items@.len() as int, o.changes.selected, list.height as int, idx),
                        ..o.changes
                    },
                    ..o
                },
                LeftTab::Files => App {
                    filetree: FileTreeState {
                        selected: picked_row(
                            o.filetree.flat_spec().len() as int,
                            o.filetree.selected,
                            list.height as int,
                            idx,
                        ),
                        ..o.filetree
                    },
                    ..o
                },
            }
        }
    }

    /// A click in the history list selects the file under the pointer, or
    /// the commit under it (each commit takes two lines).
    pub open spec fn click_history_spec(o: App, x: u16, y: u16) -> App {
        let list = o.rects.history_list;
        if !list.contains_spec(x, y) {
            o
        } else {
            let row = y - list.y;
            if o.history.in_files {
                App {
                    history: HistoryState {
                        files_selected: picked_row(
                            o.history.files@.len() as int,
                            o.history.files_selected,
                            list.height as int,
                            row,
                        ),
                        ..o.history
                    },
                    ..o
                }
            } else {
                App {
                    history: HistoryState {
                        selected: picked_row(
                            o.history.commits@.len() as int,
                            o.history.selected,
                            list.height as int / 2,
                            row / 2,
                        ),
                        ..o.history
                    },
                    ..o
                }
            }
        }
    }

    /// On the welcome screen a click picks a recent repository; in the
    /// workspace it focuses the panel under the pointer (the terminal first,
    /// when shown) and, in the left and history lists, selects a row.
    pub open spec fn click_spec(o: App, x: u16, y: u16) -> App {
        if o.mode == Mode::Welcome {
            let list = o.rects.recent_list;
            if list.contains_spec(x, y) {
                App {
                    recent_selected: picked_row(o.recent_list@.len() as int, o.recent_selected, list.height as int, y - list.y),
                    ..o
                }
            } else {
                o
            }
        } else if o.runner.visible && o.rects.terminal.contains_spec(x, y) {
            App { focus: Panel::Terminal, ..o }
        } else if o.rects.left.contains_spec(x, y) {
            Self::click_left_spec(App { focus: Panel::Left, ..o }, x, y)
        } else if o.rects.center.contains_spec(x, y) {
            App { focus: Panel::Center, ..o }
        } else if o.rects.history.contains_spec(x, y) {
            Self::click_history_spec(App { focus: Panel::History, ..o }, x, y)
        } else {
            o
        }
    }

    /// A wheel step moves the selection of the list under focus, or scrolls
    /// the diff, the commit patch or the terminal; in the editor it moves the
    /// cursor line (keeping the column inside the line).
    pub open spec fn scroll_spec(o: App, dir: int) -> App {
        match o.mode {
            Mode::Welcome => App {
                recent_selected: move_idx_spec(o.recent_selected as int, dir, o.recent_list@.len() as int) as usize,
                ..o
            },
            Mode::Workspace => match o.focus {
                Panel::Left => match o.left_tab {
                    LeftTab::Changes => App {
                        changes: ChangesState {
                            selected: move_idx_spec(o.changes.selected as int, dir, o.changes.items@.len() as int) as usize,
                            ..o.changes
                        },
                        ..o
                    },
                    LeftTab::Files => App {
                        filetree: FileTreeState {
                            selected: move_idx_spec(
                                o.filetree.selected as int,
                                dir,
                                o.filetree.flat_spec().len() as int,
                            ) as usize,
                            ..o.filetree
                        },
                        ..o
                    },
                },
                Panel::Center => match o.center_view {
                    CenterView::Diff => App {
                        diff: crate::app::DiffState { scroll: add_scroll_spec(o.diff.scroll as int, dir) as usize, ..o.diff },
                        ..o
                    },
                    CenterView::HistoryDiff => App {
                        history: HistoryState {
                            detail_scroll: add_scroll_spec(o.history.detail_scroll as int, dir) as usize,
                            ..o.history
                        },
                        ..o
                    },
                    CenterView::Editor => {
                        let line = move_idx_spec(o.editor.cursor_line as int, dir, o.editor.lines@.len() as int) as usize;
                        let moved = EditorState { cursor_line: line, ..o.editor };
                        App { editor: EditorState { cursor_col: Self::clamped_col(moved), ..moved }, ..o }
                    },
                },
                Panel::History => if o.history.in_files {
                    App {
                        history: HistoryState {
                            files_selected: move_idx_spec(
                                o.history.files_selected as int,
                                dir,
                                o.history.files@.len() as int,
                            ) as usize,
                            ..o.history
                        },
                        ..o
                    }
                } else {
                    App {
                        history: HistoryState {
                            selected: move_idx_spec(o.history.selected as int, dir, o.history.commits@.len() as int) as usize,
                            ..o.history
                        },
                        ..o
                    }
                },
                Panel::Terminal => App {
                    runner: CmdRunner { scroll: add_scroll_spec(o.runner.scroll as int, dir) as usize, ..o.runner },
                    ..o
                },
            },
        }
    }

    /// An open help window is closed by any mouse event; otherwise a left
    /// press clicks and the wheel scrolls (up is one step back).
    pub open spec fn mouse_spec(o: App, m: Mouse) -> App {
        if o.help_open {
            App { help_open: false, ..o }
        } else {
            match m.kind {
                MouseKind::LeftDown => Self::click_spec(o, m.column, m.row),
                MouseKind::ScrollUp => Self::scroll_spec(o, -1),
                MouseKind::ScrollDown => Self::scroll_spec(o, 1),
                MouseKind::Other => o,
            }
        }
    }

    fn click_left(&mut self, x: u16, y: u16)
        requires
            old(self).rects.left_list.contains_spec(x, y) ==> match old(self).left_tab {
                LeftTab::Changes => window_fits(
                    old(self).changes.items@.len() as int,
                    old(self).changes.selected as int,
                    old(self).rects.left_list.height as int,
                ),
                LeftTab::Files => window_fits(
                    old(self).filetree.flat_spec().len() as int,
                    old(self).filetree.selected as int,
                    old(self).rects.left_list.height as int,
                ),
            },
        ensures
            *final(self) == Self::click_left_spec(*old(self), x, y),
    {
        let list = self.rects.left_list;
        if !list.contains(x, y) {
            return;
        }
        let idx = (y - list.y) as usize;
        let height = list.height as usize;
        match self.left_tab {
            LeftTab::Changes => {
                self.changes.selected = pick_row(self.changes.items.len(), self.changes.selected, height, idx);
            },
            LeftTab::Files => {
                let flat = self.filetree.flat();
                assert(flat_views(flat@).len() == flat@.len());
                assert(flat@.len() == self.filetree.flat_spec().len());
                self.filetree.selected = pick_row(flat.len(), self.filetree.selected, height, idx);
            },
        }
    }

    fn click_history(&mut self, x: u16, y: u16)
        requires
            old(self).rects.history_list.contains_spec(x, y) ==> if old(self).history.in_files {
                window_fits(
                    old(self).history.files@.len() as int,
                    old(self).history.files_selected as int,
                    old(self).rects.history_list.height as int,
                )
            } else {
                window_fits(
                    old(self).history.commits@.len() as int,
                    old(self).history.selected as int,
                    old(self).rects.history_list.height as int / 2,
                )
            },
        ensures
            *final(self) == Self::click_history_spec(*old(self), x, y),
    {
        let list = self.rects.history_list;
        if !list.contains(x, y) {
            return;
        }
        let row = (y - list.y) as usize;
        let height = list.height as usize;
        if self.history.in_files {
            self.history.files_selected = pick_row(
                self.history.files.len(),
                self.history.files_selected,
                height,
                row,
            );
        } else {
            self.history.selected = pick_row(self.history.commits.len(), self.history.selected, height / 2, row / 2);
        }
    }

    fn click(&mut self, x: u16, y: u16)
        requires
            Self::click_ok(*old(self), x, y),
        ensures
            *final(self) == Self::click_spec(*old(self), x, y),
    {
        if self.mode == Mode::Welcome {
            let list = self.rects.recent_list;
            if list.contains(x, y) {
                let idx = (y - list.y) as usize;
                self.recent_selected = pick_row(self.recent_list.len(), self.recent_selected, list.height as usize, idx);
            }
            return;
        }
        if self.runner.visible && self.rects.terminal.contains(x, y) {
            self.focus = Panel::Terminal;
        } else if self.rects.left.contains(x, y) {
            self.focus = Panel::Left;
            self.click_left(x, y);
        } else if self.rects.center.contains(x, y) {
            self.focus = Panel::Center;
        } else if self.rects.history.contains(x, y) {
            self.focus = Panel::History;
            self.click_history(x, y);
        }
    }

    fn scroll(&mut self, dir: i32)
        requires
            Self::scroll_ok(*old(self), dir as int),
        ensures
            *final(self) == Self::scroll_spec(*old(self), dir as int),
    {
        match self.mode {
            Mode::Welcome => {
                self.recent_selected = move_idx(self.recent_selected, dir, self.recent_list.len());
            },
            Mode::Workspace => match self.focus {
                Panel::Left => match self.left_tab {
                    LeftTab::Changes => {
                        self.changes.selected = move_idx(self.changes.selected, dir, self.changes.items.len());
                    },
                    LeftTab::Files => {
                        let flat = self.filetree.flat();
                        assert(flat_views(flat@).len() == flat@.len());
                        assert(flat@.len() == self.filetree.flat_spec().len());
                        self.filetree.selected = move_idx(self.filetree.selected, dir, flat.len());
                    },
                },
                Panel::Center => match self.center_view {
                    CenterView::Diff => {
                        self.diff.scroll = add_scroll(self.diff.scroll, dir);
                    },
                    CenterView::HistoryDiff => {
                        self.history.detail_scroll = add_scroll(self.history.detail_scroll, dir);
                    },
                    CenterView::Editor => {
                        let len = self.editor.lines.len();
                        self.editor.cursor_line = move_idx(self.editor.cursor_line, dir, len);
                        self.clamp_editor_col();
                    },
                },
                Panel::History => {
                    if self.history.in_files {
                        self.history.files_selected = move_idx(
                            self.history.files_selected,
                            dir,
                            self.history.files.len(),
                        );
                    } else {
                        self.history.selected = move_idx(self.history.selected, dir, self.history.commits.len());
                    }
                },
                Panel::Terminal => {
                    self.runner.scroll = add_scroll(self.runner.scroll, dir);
                },
            },
        }
    }

    pub(crate) fn handle_mouse(&mut self, m: Mouse)
        requires
            Self::mouse_ok(*old(self), m),
        ensures
            *final(self) == Self::mouse_spec(*old(self), m),
    {
        if self.help_open {
            self.help_open = false;
            return;
        }
        match m.kind {
            MouseKind::LeftDown => self.click(m.column, m.row),
            MouseKind::ScrollUp => self.scroll(-1),
            MouseKind::ScrollDown => self.scroll(1),
            MouseKind::Other => {},
        }
    }
}

} // verus!
