//! How the application reacts to keys, screen by screen and panel by panel.
use vstd::prelude::*;
use vstd::utf8::{decode_utf8, is_char_boundary};

use crate::app::ops::{repo_of, unstaged_paths};
use crate::app::{
    is_text, sat_dec, App, BranchState, CenterView, ChangesState, DiffState, EditorState, HistoryState,
    InputMode, LeftTab, Mode, Panel,
};
use crate::edit::{
    byte_len, bytes_of, insert_char, lemma_prev_boundary_is_boundary, next_boundary, next_boundary_spec,
    prev_boundary, prev_boundary_ok, prev_boundary_spec, remove_char, split_line,
};
use crate::event::{effect_views, ev, Effect, EffectKind, EffectView, Key, KeyCode};
use crate::filetree::FileTreeState;
use crate::git::types::BranchInfo;
use crate::terminal::{texts, CmdRunner};
use crate::text::{chars_of, concat, string_from};

verus! {

broadcast use vstd::utf8::group_utf8_lib;

/// `(sel + 1).min(len.saturating_sub(1))`.
pub open spec fn step_down(sel: usize, len: nat) -> usize {
    if sel + 1 <= sat_dec(len as int) {
        (sel + 1) as usize
    } else {
        sat_dec(len as int) as usize
    }
}

fn step_down_exec(sel: usize, len: usize) -> (r: usize)
    requires
        sel < usize::MAX,
    ensures
        r == step_down(sel, len as nat),
{
    let top = len.saturating_sub(1);
    if sel + 1 <= top {
        sel + 1
    } else {
        top
    }
}

/// The position of the current branch, 0 when none is current.
pub open spec fn current_pos(items: Seq<BranchInfo>, i: int) -> int
    decreases items.len() - i,
{
    if i >= items.len() || i < 0 {
        0
    } else if items[i].is_current {
        i
    } else {
        current_pos(items, i + 1)
    }
}

pub open spec fn is_char(code: KeyCode, c: char) -> bool {
    code == KeyCode::Char(c)
}

/// `o` with the status and error messages cleared.
pub open spec fn cleared(o: App) -> App {
    App { status_msg: None, error_msg: None, ..o }
}

/// `s` without its last character.
pub open spec fn pop_text(s: Seq<char>) -> Seq<char> {
    if s.len() > 0 {
        s.drop_last()
    } else {
        s
    }
}

fn pop_string(s: &String) -> (r: String)
    ensures
        r@ == pop_text(s@),
{
    let v = chars_of(s.as_str());
    if v.len() > 0 {
        string_from(&v, 0, v.len() - 1)
    } else {
        s.clone()
    }
}

fn push_string(s: &String, c: char) -> (r: String)
    ensures
        r@ == s@.push(c),
{
    let mut t = s.clone();
    t.push(c);
    t
}

impl App {
    // -----------------------------------------------------------------------
    // When a key can be handled: outside these conditions it would fail
    // -----------------------------------------------------------------------

    /// Keys in the editor stay on character boundaries and existing lines.
    pub open spec fn edit_key_ok(o: App, code: KeyCode) -> bool {
        let e = o.editor;
        let cl = e.cursor_line as int;
        let has = cl < e.lines@.len();
        let b = if has {
            bytes_of(e.lines@[cl]@)
        } else {
            Seq::<u8>::empty()
        };
        match code {
            KeyCode::Char(_) => has ==> is_char_boundary(b, e.cursor_col as int),
            KeyCode::Backspace => if e.cursor_col > 0 {
                has ==> prev_boundary_ok(b, e.cursor_col as int) && b.len() > 0
            } else {
                cl > 0 ==> has
            },
            KeyCode::Enter => has && is_char_boundary(b, e.cursor_col as int),
            KeyCode::Left => has ==> prev_boundary_ok(b, e.cursor_col as int),
            KeyCode::Down => cl < usize::MAX,
            KeyCode::End => has,
            _ => true,
        }
    }

    /// Keys on the input line.
    pub open spec fn input_key_ok(o: App, code: KeyCode) -> bool {
        match code {
            KeyCode::Enter => Self::confirm_ok(o),
            KeyCode::Up => o.input_mode == InputMode::Command ==> o.runner.hist_up_ok(),
            KeyCode::Down => o.input_mode == InputMode::Command ==> o.runner.hist_down_ok(),
            _ => true,
        }
    }

    pub open spec fn welcome_key_ok(o: App, code: KeyCode) -> bool {
        (is_char(code, 'j') || code == KeyCode::Down) ==> o.recent_selected < usize::MAX
    }

    pub open spec fn left_key_ok(o: App, code: KeyCode) -> bool {
        match o.left_tab {
            LeftTab::Changes => {
                &&& (is_char(code, 'j') || code == KeyCode::Down) ==> o.changes.selected < usize::MAX
                &&& (is_char(code, ' ') || is_char(code, 'u') || code == KeyCode::Enter) ==> Self::selected_change_ok(o)
                &&& is_char(code, 'a') ==> (unstaged_paths(o.changes.items@).len() > 0 ==> o.repo_path is Some)
            },
            LeftTab::Files => {
                &&& (is_char(code, 'j') || code == KeyCode::Down) ==> o.filetree.selected < usize::MAX
                &&& (code == KeyCode::Enter || is_char(code, 'l') || is_char(code, 'e')) ==> Self::tree_ok(o)
            },
        }
    }

    pub open spec fn center_key_ok(o: App, code: KeyCode) -> bool {
        o.center_view == CenterView::Diff ==> {
            &&& is_char(code, 'N') ==> (o.diff.hunks@.len() > 0 ==> o.diff.hunk_idx < usize::MAX)
            &&& is_char(code, 'n') ==> (o.diff.hunks@.len() > 0 ==> o.diff.hunk_idx + o.diff.hunks@.len() <= usize::MAX + 1)
        }
    }

    pub open spec fn history_key_ok(o: App, code: KeyCode) -> bool {
        if o.history.in_files {
            &&& (is_char(code, 'j') || code == KeyCode::Down) ==> o.history.files_selected < usize::MAX
            &&& code == KeyCode::Enter ==> (o.history.selected_hash is Some && o.history.files_selected < o.history.files@.len() ==> o.repo_path is Some)
        } else {
            &&& (is_char(code, 'j') || code == KeyCode::Down) ==> o.history.selected < usize::MAX
            &&& code == KeyCode::Enter ==> (o.history.selected < o.history.commits@.len() ==> o.repo_path is Some)
        }
    }

    pub open spec fn workspace_key_ok(o: App, code: KeyCode) -> bool {
        if o.branches.visible {
            &&& (is_char(code, 'j') || code == KeyCode::Down) ==> o.branches.selected < usize::MAX
            &&& code == KeyCode::Enter ==> (o.branches.selected < o.branches.items@.len() ==> o.repo_path is Some)
        } else if is_char(code, 'P') || is_char(code, 'F') {
            o.repo_path is Some
        } else if is_char(code, 'q') || is_char(code, '?') || is_char(code, 't') || is_char(code, 'r') || is_char(code, 'x')
            || is_char(code, 'b') || code == KeyCode::Tab || code == KeyCode::BackTab || is_char(code, '1') || is_char(
            code,
            '2',
        ) || is_char(code, '3') || is_char(code, '4') || is_char(code, '[') || is_char(code, ']') {
            true
        } else {
            match o.focus {
                Panel::Left => Self::left_key_ok(o, code),
                Panel::Center => Self::center_key_ok(o, code),
                Panel::History => Self::history_key_ok(o, code),
                Panel::Terminal => true,
            }
        }
    }

    /// The key can be handled without failing (for want of a repository, by
    /// an index overflow, or by a cut inside a character).
    pub open spec fn key_ok(o: App, k: Key) -> bool {
        if k.release {
            true
        } else if k.ctrl {
            (is_char(k.code, 's') && o.input_mode == InputMode::Edit) ==> (o.editor.dirty ==> o.repo_path is Some)
        } else {
            match o.input_mode {
                InputMode::Path | InputMode::Commit | InputMode::Branch | InputMode::Command => Self::input_key_ok(o, k.code),
                InputMode::Edit => Self::edit_key_ok(o, k.code),
                InputMode::Normal => o.help_open || match o.mode {
                    Mode::Welcome => Self::welcome_key_ok(o, k.code),
                    Mode::Workspace => Self::workspace_key_ok(o, k.code),
                },
            }
        }
    }

    // -----------------------------------------------------------------------
    // What each key does
    // -----------------------------------------------------------------------

    /// On the input line: Enter confirms, Esc cancels (emptying it),
    /// Backspace deletes the last character, Up and Down walk the command
    /// history when entering a command, other characters are typed.
    pub open spec fn input_key_post(o: App, code: KeyCode, n: App, e: Seq<EffectView>) -> bool {
        match code {
            KeyCode::Enter => Self::confirm_post(o, n, e),
            KeyCode::Esc => n == (App { input_mode: InputMode::Normal, input: n.input, ..o }) && n.input@.len() == 0 && e
                == Seq::<EffectView>::empty(),
            KeyCode::Backspace => n == (App { input: n.input, ..o }) && n.input@ == pop_text(o.input@) && e == Seq::<
                EffectView,
            >::empty(),
            KeyCode::Up => if o.input_mode == InputMode::Command {
                &&& n == (App { runner: n.runner, input: n.input, ..o })
                &&& CmdRunner::hist_up_post(o.runner, n.runner)
                &&& if o.runner.history@.len() > 0 {
                    n.input@ == n.runner.input@
                } else {
                    n.input == o.input
                }
                &&& e == Seq::<EffectView>::empty()
            } else {
                n == o && e == Seq::<EffectView>::empty()
            },
            KeyCode::Down => if o.input_mode == InputMode::Command {
                &&& n == (App { runner: n.runner, input: n.input, ..o })
                &&& CmdRunner::hist_down_post(o.runner, n.runner)
                &&& if o.runner.history@.len() > 0 && o.runner.hist_idx is Some {
                    n.input@ == n.runner.input@
                } else {
                    n.input == o.input
                }
                &&& e == Seq::<EffectView>::empty()
            } else {
                n == o && e == Seq::<EffectView>::empty()
            },
            KeyCode::Char(c) => n == (App { input: n.input, ..o }) && n.input@ == o.input@.push(c) && e == Seq::<
                EffectView,
            >::empty(),
            _ => n == o && e == Seq::<EffectView>::empty(),
        }
    }

    /// The editor after an edit of line `cl`: its lines and cursor as given,
    /// marked changed.
    pub open spec fn edited(o: App, n: App, lines: Seq<Seq<char>>, cl: int, col: int) -> bool {
        &&& n == (App {
            editor: EditorState {
                lines: n.editor.lines,
                cursor_line: cl as usize,
                cursor_col: col as usize,
                dirty: true,
                ..o.editor
            },
            ..o
        })
        &&& texts(n.editor.lines@) == lines
    }

    /// The editor with only its cursor moved.
    pub open spec fn moved(o: App, cl: int, col: int) -> App {
        App { editor: EditorState { cursor_line: cl as usize, cursor_col: col as usize, ..o.editor }, ..o }
    }

    /// Editing keys: Esc leaves edit mode; a character is inserted at the
    /// cursor; Backspace deletes the character before the cursor or joins
    /// the line to the previous one; Enter splits the line; arrows, Home and
    /// End move the cursor (Up and Down keep the column within the line).
    pub open spec fn edit_key_post(o: App, code: KeyCode, n: App, e: Seq<EffectView>) -> bool {
        let ed = o.editor;
        let cl = ed.cursor_line as int;
        let col = ed.cursor_col as int;
        let lines = texts(ed.lines@);
        let has = cl < lines.len();
        let b = bytes_of(lines[cl]);
        &&& e == Seq::<EffectView>::empty()
        &&& match code {
            KeyCode::Esc => n == (App { input_mode: InputMode::Normal, ..o }),
            KeyCode::Char(c) => if has {
                let nb = b.take(col) + bytes_of(seq![c]) + b.skip(col);
                Self::edited(o, n, lines.update(cl, decode_utf8(nb)), cl, next_boundary_spec(nb, col))
            } else {
                n == o
            },
            KeyCode::Backspace => if col > 0 {
                if has {
                    let p = prev_boundary_spec(b, col);
                    let nb = b.take(p) + b.skip(next_boundary_spec(b, p));
                    Self::edited(o, n, lines.update(cl, decode_utf8(nb)), cl, p)
                } else {
                    n == o
                }
            } else if cl > 0 {
                Self::edited(
                    o,
                    n,
                    lines.remove(cl).update(cl - 1, lines[cl - 1] + lines[cl]),
                    cl - 1,
                    bytes_of(lines[cl - 1]).len() as int,
                )
            } else {
                n == o
            },
            KeyCode::Enter => Self::edited(
                o,
                n,
                lines.update(cl, decode_utf8(b.take(col))).insert(cl + 1, decode_utf8(b.skip(col))),
                cl + 1,
                0,
            ),
            KeyCode::Left => if has {
                n == Self::moved(o, cl, prev_boundary_spec(b, col))
            } else {
                n == o
            },
            KeyCode::Right => if has {
                n == Self::moved(o, cl, next_boundary_spec(b, col))
            } else {
                n == o
            },
            KeyCode::Up => {
                let m = Self::moved(o, sat_dec(cl), col);
                n == Self::moved(m, sat_dec(cl), Self::clamped_col(m.editor) as int)
            },
            KeyCode::Down => {
                let m = Self::moved(o, step_down(ed.cursor_line, lines.len()) as int, col);
                n == Self::moved(m, m.editor.cursor_line as int, Self::clamped_col(m.editor) as int)
            },
            KeyCode::Home => n == Self::moved(o, cl, 0),
            KeyCode::End => n == Self::moved(o, cl, b.len() as int),
            _ => n == o,
        }
    }

    /// On the welcome screen: quit, help, enter a path, open the selected
    /// recent repository, move the selection, forget the selected entry.
    pub open spec fn welcome_key_post(o: App, code: KeyCode, n: App, e: Seq<EffectView>) -> bool {
        let has = o.recent_selected < o.recent_list@.len();
        if is_char(code, 'q') {
            n == (App { should_quit: true, ..o }) && e == Seq::<EffectView>::empty()
        } else if is_char(code, '?') {
            n == (App { help_open: true, ..o }) && e == Seq::<EffectView>::empty()
        } else if is_char(code, 'o') {
            n == (App { input_mode: InputMode::Path, input: n.input, ..o }) && n.input@.len() == 0 && e == Seq::<
                EffectView,
            >::empty()
        } else if code == KeyCode::Enter {
            n == o && e == if has {
                seq![ev(EffectKind::OpenRepo, seq![o.recent_list@[o.recent_selected as int].path@])]
            } else {
                Seq::<EffectView>::empty()
            }
        } else if is_char(code, 'j') || code == KeyCode::Down {
            n == (App { recent_selected: step_down(o.recent_selected, o.recent_list@.len()), ..o }) && e == Seq::<
                EffectView,
            >::empty()
        } else if is_char(code, 'k') || code == KeyCode::Up {
            n == (App { recent_selected: sat_dec(o.recent_selected as int) as usize, ..o }) && e == Seq::<
                EffectView,
            >::empty()
        } else if is_char(code, 'd') || is_char(code, 'x') {
            n == o && e == if has {
                seq![ev(EffectKind::ForgetRecent, seq![o.recent_list@[o.recent_selected as int].path@])]
            } else {
                Seq::<EffectView>::empty()
            }
        } else {
            n == o && e == Seq::<EffectView>::empty()
        }
    }

    /// The changes list: move, stage, unstage, stage all, start a commit,
    /// show the diff.
    pub open spec fn changes_key_post(o: App, code: KeyCode, n: App, e: Seq<EffectView>) -> bool {
        let c = o.changes;
        if is_char(code, 'j') || code == KeyCode::Down {
            n == (App { changes: ChangesState { selected: step_down(c.selected, c.items@.len()), ..c }, ..o }) && e
                == Seq::<EffectView>::empty()
        } else if is_char(code, 'k') || code == KeyCode::Up {
            n == (App { changes: ChangesState { selected: sat_dec(c.selected as int) as usize, ..c }, ..o }) && e
                == Seq::<EffectView>::empty()
        } else if is_char(code, 'g') {
            n == (App { changes: ChangesState { selected: 0, ..c }, ..o }) && e == Seq::<EffectView>::empty()
        } else if is_char(code, 'G') {
            n == (App { changes: ChangesState { selected: sat_dec(c.items@.len() as int) as usize, ..c }, ..o }) && e
                == Seq::<EffectView>::empty()
        } else if is_char(code, ' ') {
            n == o && e == Self::toggle_stage_effects(o)
        } else if is_char(code, 'u') {
            n == o && e == Self::unstage_effects(o)
        } else if is_char(code, 'a') {
            n == o && e == Self::stage_all_effects(o)
        } else if is_char(code, 'c') {
            n == (App { input_mode: InputMode::Commit, input: n.input, ..o }) && n.input@.len() == 0 && e == Seq::<
                EffectView,
            >::empty()
        } else if code == KeyCode::Enter {
            Self::select_change_post(o, n, e)
        } else {
            n == o && e == Seq::<EffectView>::empty()
        }
    }

    /// The file tree: move, open or close directories, read files.
    pub open spec fn files_key_post(o: App, code: KeyCode, n: App, e: Seq<EffectView>) -> bool {
        let t = o.filetree;
        if is_char(code, 'j') || code == KeyCode::Down {
            n == (App {
                filetree: FileTreeState { selected: step_down(t.selected, t.flat_spec().len()), ..t },
                ..o
            }) && e == Seq::<EffectView>::empty()
        } else if is_char(code, 'k') || code == KeyCode::Up {
            n == (App { filetree: FileTreeState { selected: sat_dec(t.selected as int) as usize, ..t }, ..o }) && e
                == Seq::<EffectView>::empty()
        } else if is_char(code, 'g') {
            n == (App { filetree: FileTreeState { selected: 0, ..t }, ..o }) && e == Seq::<EffectView>::empty()
        } else if is_char(code, 'G') {
            n == (App {
                filetree: FileTreeState { selected: sat_dec(t.flat_spec().len() as int) as usize, ..t },
                ..o
            }) && e == Seq::<EffectView>::empty()
        } else if code == KeyCode::Enter || is_char(code, 'l') {
            Self::tree_activate_post(o, n, e)
        } else if is_char(code, 'h') {
            Self::tree_collapse_post(o, n) && e == Seq::<EffectView>::empty()
        } else if is_char(code, 'e') {
            n == o && e == Self::tree_edit_effects(o)
        } else {
            n == o && e == Seq::<EffectView>::empty()
        }
    }

    /// The center panel: scroll the diff, switch its layout, jump between
    /// differences; scroll a commit patch; enter edit mode in the editor.
    pub open spec fn center_key_post(o: App, code: KeyCode, n: App, e: Seq<EffectView>) -> bool {
        &&& e == Seq::<EffectView>::empty()
        &&& match o.center_view {
            CenterView::Diff => {
                let d = o.diff;
                if is_char(code, 'j') || code == KeyCode::Down {
                    n == (App {
                        diff: DiffState {
                            scroll: if d.scroll < usize::MAX { (d.scroll + 1) as usize } else { d.scroll },
                            ..d
                        },
                        ..o
                    })
                } else if is_char(code, 'k') || code == KeyCode::Up {
                    n == (App { diff: DiffState { scroll: sat_dec(d.scroll as int) as usize, ..d }, ..o })
                } else if is_char(code, 'g') {
                    n == (App { diff: DiffState { scroll: 0, ..d }, ..o })
                } else if is_char(code, 'G') {
                    n == (App { diff: DiffState { scroll: (usize::MAX / 2) as usize, ..d }, ..o })
                } else if is_char(code, 'v') {
                    n == (App { diff: DiffState { side_by_side: !d.side_by_side, ..d }, ..o })
                } else if is_char(code, 'n') {
                    Self::diff_prev_post(o, n)
                } else if is_char(code, 'N') {
                    Self::diff_next_post(o, n)
                } else {
                    n == o
                }
            },
            CenterView::HistoryDiff => {
                let h = o.history;
                if is_char(code, 'j') || code == KeyCode::Down {
                    n == (App {
                        history: HistoryState {
                            detail_scroll: if h.detail_scroll < usize::MAX { (h.detail_scroll + 1) as usize } else { h.detail_scroll },
                            ..h
                        },
                        ..o
                    })
                } else if is_char(code, 'k') || code == KeyCode::Up {
                    n == (App { history: HistoryState { detail_scroll: sat_dec(h.detail_scroll as int) as usize, ..h }, ..o })
                } else {
                    n == o
                }
            },
            CenterView::Editor => if code == KeyCode::Enter {
                n == (App { input_mode: InputMode::Edit, ..o })
            } else {
                n == o
            },
        }
    }

    /// The history panel: move among commits and open one; move among its
    /// files, open a patch, go back.
    pub open spec fn history_key_post(o: App, code: KeyCode, n: App, e: Seq<EffectView>) -> bool {
        let h = o.history;
        if h.in_files {
            if is_char(code, 'j') || code == KeyCode::Down {
                n == (App { history: HistoryState { files_selected: step_down(h.files_selected, h.files@.len()), ..h }, ..o })
                    && e == Seq::<EffectView>::empty()
            } else if is_char(code, 'k') || code == KeyCode::Up {
                n == (App { history: HistoryState { files_selected: sat_dec(h.files_selected as int) as usize, ..h }, ..o })
                    && e == Seq::<EffectView>::empty()
            } else if code == KeyCode::Enter {
                n == o && e == Self::history_file_effects(o)
            } else if code == KeyCode::Esc {
                n == (App { history: HistoryState { in_files: false, ..h }, ..o }) && e == Seq::<EffectView>::empty()
            } else {
                n == o && e == Seq::<EffectView>::empty()
            }
        } else {
            if is_char(code, 'j') || code == KeyCode::Down {
                n == (App { history: HistoryState { selected: step_down(h.selected, h.commits@.len()), ..h }, ..o })
                    && e == Seq::<EffectView>::empty()
            } else if is_char(code, 'k') || code == KeyCode::Up {
                n == (App { history: HistoryState { selected: sat_dec(h.selected as int) as usize, ..h }, ..o }) && e
                    == Seq::<EffectView>::empty()
            } else if is_char(code, 'g') {
                n == (App { history: HistoryState { selected: 0, ..h }, ..o }) && e == Seq::<EffectView>::empty()
            } else if is_char(code, 'G') {
                n == (App { history: HistoryState { selected: sat_dec(h.commits@.len() as int) as usize, ..h }, ..o })
                    && e == Seq::<EffectView>::empty()
            } else if code == KeyCode::Enter {
                Self::select_commit_post(o, n, e)
            } else {
                n == o && e == Seq::<EffectView>::empty()
            }
        }
    }

    /// The terminal panel: `i` or Enter starts typing a command.
    pub open spec fn terminal_key_post(o: App, code: KeyCode, n: App, e: Seq<EffectView>) -> bool {
        &&& e == Seq::<EffectView>::empty()
        &&& if is_char(code, 'i') || code == KeyCode::Enter {
            n == (App {
                input_mode: InputMode::Command,
                input: n.input,
                runner: CmdRunner { visible: true, ..o.runner },
                ..o
            }) && n.input@.len() == 0
        } else {
            n == o
        }
    }

    /// In the workspace: the branch popup takes the keys while it is shown;
    /// otherwise global keys (quit, help, terminal, reload, close, branches,
    /// push, pull, focus, left tab) come first, then the focused panel's.
    pub open spec fn workspace_key_post(o: App, code: KeyCode, n: App, e: Seq<EffectView>) -> bool {
        let b = o.branches;
        if b.visible {
            if code == KeyCode::Esc {
                n == (App { branches: BranchState { visible: false, ..b }, ..o }) && e == Seq::<EffectView>::empty()
            } else if is_char(code, 'j') || code == KeyCode::Down {
                n == (App { branches: BranchState { selected: step_down(b.selected, b.items@.len()), ..b }, ..o }) && e
                    == Seq::<EffectView>::empty()
            } else if is_char(code, 'k') || code == KeyCode::Up {
                n == (App { branches: BranchState { selected: sat_dec(b.selected as int) as usize, ..b }, ..o }) && e
                    == Seq::<EffectView>::empty()
            } else if code == KeyCode::Enter {
                Self::checkout_post(o, n, e)
            } else if is_char(code, 'c') {
                n == (App {
                    branches: BranchState { visible: false, ..b },
                    input_mode: InputMode::Branch,
                    input: n.input,
                    ..o
                }) && n.input@.len() == 0 && e == Seq::<EffectView>::empty()
            } else {
                n == o && e == Seq::<EffectView>::empty()
            }
        } else if is_char(code, 'q') {
            n == (App { should_quit: true, ..o }) && e == Seq::<EffectView>::empty()
        } else if is_char(code, '?') {
            n == (App { help_open: true, ..o }) && e == Seq::<EffectView>::empty()
        } else if is_char(code, 't') {
            n == (App { runner: CmdRunner { visible: !o.runner.visible, ..o.runner }, ..o }) && e == Seq::<
                EffectView,
            >::empty()
        } else if is_char(code, 'r') {
            n == o && e == o.reload_all_spec()
        } else if is_char(code, 'x') {
            Self::close_repo_post(o, n, e)
        } else if is_char(code, 'b') {
            n == (App {
                branches: BranchState { visible: true, selected: current_pos(b.items@, 0) as usize, ..b },
                ..o
            }) && e == Seq::<EffectView>::empty()
        } else if is_char(code, 'P') {
            n == o && e == seq![ev(EffectKind::Push, seq![repo_of(o)])]
        } else if is_char(code, 'F') {
            n == o && e == seq![ev(EffectKind::Pull, seq![repo_of(o)])]
        } else if code == KeyCode::Tab {
            n == (App { focus: Self::next_panel(o.focus), ..o }) && e == Seq::<EffectView>::empty()
        } else if code == KeyCode::BackTab {
            n == (App { focus: Self::prev_panel(o.focus), ..o }) && e == Seq::<EffectView>::empty()
        } else if is_char(code, '1') {
            n == (App { focus: Panel::Left, ..o }) && e == Seq::<EffectView>::empty()
        } else if is_char(code, '2') {
            n == (App { focus: Panel::Center, ..o }) && e == Seq::<EffectView>::empty()
        } else if is_char(code, '3') {
            n == (App { focus: Panel::History, ..o }) && e == Seq::<EffectView>::empty()
        } else if is_char(code, '4') {
            n == (App { focus: Panel::Terminal, ..o }) && e == Seq::<EffectView>::empty()
        } else if is_char(code, '[') {
            n == (App { left_tab: LeftTab::Changes, focus: Panel::Left, ..o }) && e == Seq::<EffectView>::empty()
        } else if is_char(code, ']') {
            n == (App { left_tab: LeftTab::Files, focus: Panel::Left, ..o }) && e == Seq::<EffectView>::empty()
        } else {
            match o.focus {
                Panel::Left => match o.left_tab {
                    LeftTab::Changes => Self::changes_key_post(o, code, n, e),
                    LeftTab::Files => Self::files_key_post(o, code, n, e),
                },
                Panel::Center => Self::center_key_post(o, code, n, e),
                Panel::History => Self::history_key_post(o, code, n, e),
                Panel::Terminal => Self::terminal_key_post(o, code, n, e),
            }
        }
    }

    /// A key: a release is ignored; any other key clears the status and error
    /// messages; Ctrl+C interrupts a command being typed or quits, Ctrl+S
    /// saves while editing; then the input line, the editor, the help
    /// window or the screen takes the key.
    pub open spec fn key_post(o: App, k: Key, n: App, e: Seq<EffectView>) -> bool {
        if k.release {
            n == o && e == Seq::<EffectView>::empty()
        } else {
            let c = cleared(o);
            if k.ctrl {
                if is_char(k.code, 'c') {
                    if c.input_mode == InputMode::Command {
                        n == (App { runner: n.runner, ..c }) && CmdRunner::interrupted(c.runner, n.runner) && e == seq![
                            ev(EffectKind::KillCommand, seq![]),
                        ]
                    } else {
                        n == (App { should_quit: true, ..c }) && e == Seq::<EffectView>::empty()
                    }
                } else if is_char(k.code, 's') && c.input_mode == InputMode::Edit {
                    n == c && e == Self::save_effects(c)
                } else {
                    n == c && e == Seq::<EffectView>::empty()
                }
            } else {
                match c.input_mode {
                    InputMode::Path | InputMode::Commit | InputMode::Branch | InputMode::Command => Self::input_key_post(
                        c,
                        k.code,
                        n,
                        e,
                    ),
                    InputMode::Edit => Self::edit_key_post(c, k.code, n, e),
                    InputMode::Normal => if c.help_open {
                        e == Seq::<EffectView>::empty() && if k.code == KeyCode::Esc || is_char(k.code, 'q') || is_char(
                            k.code,
                            '?',
                        ) {
                            n == (App { help_open: false, ..c })
                        } else {
                            n == c
                        }
                    } else {
                        match c.mode {
                            Mode::Welcome => Self::welcome_key_post(c, k.code, n, e),
                            Mode::Workspace => Self::workspace_key_post(c, k.code, n, e),
                        }
                    },
                }
            }
        }
    }

    // -----------------------------------------------------------------------
    // Handlers
    // -----------------------------------------------------------------------

    fn handle_input_key(&mut self, code: KeyCode) -> (r: Vec<Effect>)
        requires
            Self::input_key_ok(*old(self), code),
        ensures
            Self::input_key_post(*old(self), code, *final(self), effect_views(r@)),
    {
        match code {
            KeyCode::Enter => self.confirm_input(),
            KeyCode::Esc => {
                self.input_mode = InputMode::Normal;
                self.input = String::new();
                none()
            },
            KeyCode::Backspace => {
                self.input = pop_string(&self.input);
                none()
            },
            KeyCode::Up => {
                if self.input_mode == InputMode::Command {
                    let moves = self.runner.history.len() > 0;
                    self.runner.hist_up();
                    if moves {
                        self.input = self.runner.input.clone();
                    }
                }
                none()
            },
            KeyCode::Down => {
                if self.input_mode == InputMode::Command {
                    let moves = self.runner.history.len() > 0 && self.runner.hist_idx.is_some();
                    self.runner.hist_down();
                    if moves {
                        self.input = self.runner.input.clone();
                    }
                }
                none()
            },
            KeyCode::Char(c) => {
                self.input = push_string(&self.input, c);
                none()
            },
            _ => none(),
        }
    }

    fn edit_type_char(&mut self, c: char)
        requires
            Self::edit_key_ok(*old(self), KeyCode::Char(c)),
        ensures
            Self::edit_key_post(*old(self), KeyCode::Char(c), *final(self), Seq::empty()),
    {
        let cl = self.editor.cursor_line;
        let col = self.editor.cursor_col;
        let ghost lines = texts(self.editor.lines@);
        if cl < self.editor.lines.len() {
            assert(lines[cl as int] == self.editor.lines@[cl as int]@);
            let nl = insert_char(self.editor.lines[cl].as_str(), col, c);
            let ncol = next_boundary(nl.as_str(), col);
            self.editor.lines.set(cl, nl);
            self.editor.cursor_col = ncol;
            self.editor.dirty = true;
            assert(texts(self.editor.lines@) =~= lines.update(cl as int, nl@));
        }
    }

    fn edit_backspace(&mut self)
        requires
            Self::edit_key_ok(*old(self), KeyCode::Backspace),
        ensures
            Self::edit_key_post(*old(self), KeyCode::Backspace, *final(self), Seq::empty()),
    {
        let cl = self.editor.cursor_line;
        let col = self.editor.cursor_col;
        let ghost lines = texts(self.editor.lines@);
        if col > 0 {
            if cl < self.editor.lines.len() {
                assert(lines[cl as int] == self.editor.lines@[cl as int]@);
                proof {
                    lemma_prev_boundary_is_boundary(lines[cl as int], col as int);
                }
                let p = prev_boundary(self.editor.lines[cl].as_str(), col);
                let nl = remove_char(self.editor.lines[cl].as_str(), p);
                self.editor.lines.set(cl, nl);
                self.editor.cursor_col = p;
                self.editor.dirty = true;
                assert(texts(self.editor.lines@) =~= lines.update(cl as int, nl@));
            }
        } else if cl > 0 {
            let cur = self.editor.lines.remove(cl);
            let prev = cl - 1;
            let prev_len = byte_len(self.editor.lines[prev].as_str());
            let joined = concat(self.editor.lines[prev].as_str(), cur.as_str());
            self.editor.lines.set(prev, joined);
            self.editor.cursor_line = prev;
            self.editor.cursor_col = prev_len;
            self.editor.dirty = true;
            assert(texts(self.editor.lines@) =~= lines.remove(cl as int).update(
                prev as int,
                lines[prev as int] + lines[cl as int],
            ));
        }
    }

    fn edit_enter(&mut self)
        requires
            Self::edit_key_ok(*old(self), KeyCode::Enter),
        ensures
            Self::edit_key_post(*old(self), KeyCode::Enter, *final(self), Seq::empty()),
    {
        let cl = self.editor.cursor_line;
        let col = self.editor.cursor_col;
        let ghost lines = texts(self.editor.lines@);
        let count = self.editor.lines.len();
        assert(cl < count);
        assert(lines[cl as int] == self.editor.lines@[cl as int]@);
        let (keep, rest) = split_line(self.editor.lines[cl].as_str(), col);
        let next = cl + 1;
        self.editor.lines.set(cl, keep);
        self.editor.lines.insert(next, rest);
        self.editor.cursor_line = next;
        self.editor.cursor_col = 0;
        self.editor.dirty = true;
        assert(texts(self.editor.lines@) =~= lines.update(cl as int, keep@).insert(next as int, rest@));
    }

    fn handle_edit_key(&mut self, code: KeyCode) -> (r: Vec<Effect>)
        requires
            Self::edit_key_ok(*old(self), code),
        ensures
            Self::edit_key_post(*old(self), code, *final(self), effect_views(r@)),
    {
        let cl = self.editor.cursor_line;
        let col = self.editor.cursor_col;
        let ghost lines = texts(self.editor.lines@);
        match code {
            KeyCode::Esc => {
                self.input_mode = InputMode::Normal;
            },
            KeyCode::Char(c) => {
                self.edit_type_char(c);
            },
            KeyCode::Backspace => {
                self.edit_backspace();
            },
            KeyCode::Enter => {
                self.edit_enter();
            },
            KeyCode::Left => {
                if cl < self.editor.lines.len() {
                    assert(lines[cl as int] == self.editor.lines@[cl as int]@);
                    self.editor.cursor_col = prev_boundary(self.editor.lines[cl].as_str(), col);
                }
            },
            KeyCode::Right => {
                if cl < self.editor.lines.len() {
                    assert(lines[cl as int] == self.editor.lines@[cl as int]@);
                    self.editor.cursor_col = next_boundary(self.editor.lines[cl].as_str(), col);
                }
            },
            KeyCode::Up => {
                self.editor.cursor_line = cl.saturating_sub(1);
                self.clamp_editor_col();
            },
            KeyCode::Down => {
                self.editor.cursor_line = step_down_exec(cl, self.editor.lines.len());
                self.clamp_editor_col();
            },
            KeyCode::Home => {
                self.editor.cursor_col = 0;
            },
            KeyCode::End => {
                assert(lines[cl as int] == self.editor.lines@[cl as int]@);
                self.editor.cursor_col = byte_len(self.editor.lines[cl].as_str());
            },
            _ => {},
        }
        none()
    }

    fn handle_welcome_key(&mut self, code: KeyCode) -> (r: Vec<Effect>)
        requires
            Self::welcome_key_ok(*old(self), code),
        ensures
            Self::welcome_key_post(*old(self), code, *final(self), effect_views(r@)),
    {
        let has = self.recent_selected < self.recent_list.len();
        if code == KeyCode::Char('q') {
            self.should_quit = true;
            none()
        } else if code == KeyCode::Char('?') {
            self.help_open = true;
            none()
        } else if code == KeyCode::Char('o') {
            self.input_mode = InputMode::Path;
            self.input = String::new();
            none()
        } else if code == KeyCode::Enter {
            if has {
                let p = self.recent_list[self.recent_selected].path.clone();
                one(Effect::OpenRepo { path: p })
            } else {
                none()
            }
        } else if code == KeyCode::Char('j') || code == KeyCode::Down {
            self.recent_selected = step_down_exec(self.recent_selected, self.recent_list.len());
            none()
        } else if code == KeyCode::Char('k') || code == KeyCode::Up {
            self.recent_selected = self.recent_selected.saturating_sub(1);
            none()
        } else if code == KeyCode::Char('d') || code == KeyCode::Char('x') {
            if has {
                let p = self.recent_list[self.recent_selected].path.clone();
                one(Effect::ForgetRecent { path: p })
            } else {
                none()
            }
        } else {
            none()
        }
    }

    fn handle_left_key(&mut self, code: KeyCode) -> (r: Vec<Effect>)
        requires
            Self::left_key_ok(*old(self), code),
        ensures
            match old(self).left_tab {
                LeftTab::Changes => Self::changes_key_post(*old(self), code, *final(self), effect_views(r@)),
                LeftTab::Files => Self::files_key_post(*old(self), code, *final(self), effect_views(r@)),
            },
    {
        match self.left_tab {
            LeftTab::Changes => {
                if code == KeyCode::Char('j') || code == KeyCode::Down {
                    self.changes.selected = step_down_exec(self.changes.selected, self.changes.items.len());
                    none()
                } else if code == KeyCode::Char('k') || code == KeyCode::Up {
                    self.changes.selected = self.changes.selected.saturating_sub(1);
                    none()
                } else if code == KeyCode::Char('g') {
                    self.changes.selected = 0;
                    none()
                } else if code == KeyCode::Char('G') {
                    self.changes.selected = self.changes.items.len().saturating_sub(1);
                    none()
                } else if code == KeyCode::Char(' ') {
                    let mut effects = none();
                    self.toggle_stage_selected(&mut effects);
                    effects
                } else if code == KeyCode::Char('u') {
                    let mut effects = none();
                    self.unstage_selected(&mut effects);
                    effects
                } else if code == KeyCode::Char('a') {
                    let mut effects = none();
                    self.stage_all(&mut effects);
                    effects
                } else if code == KeyCode::Char('c') {
                    self.input_mode = InputMode::Commit;
                    self.input = String::new();
                    none()
                } else if code == KeyCode::Enter {
                    self.select_change()
                } else {
                    none()
                }
            },
            LeftTab::Files => {
                if code == KeyCode::Char('j') || code == KeyCode::Down {
                    let len = self.filetree.flat().len();
                    self.filetree.selected = step_down_exec(self.filetree.selected, len);
                    none()
                } else if code == KeyCode::Char('k') || code == KeyCode::Up {
                    self.filetree.selected = self.filetree.selected.saturating_sub(1);
                    none()
                } else if code == KeyCode::Char('g') {
                    self.filetree.selected = 0;
                    none()
                } else if code == KeyCode::Char('G') {
                    self.filetree.selected = self.filetree.flat().len().saturating_sub(1);
                    none()
                } else if code == KeyCode::Enter || code == KeyCode::Char('l') {
                    self.filetree_activate()
                } else if code == KeyCode::Char('h') {
                    self.filetree_collapse();
                    none()
                } else if code == KeyCode::Char('e') {
                    self.filetree_edit()
                } else {
                    none()
                }
            },
        }
    }

    fn handle_center_key(&mut self, code: KeyCode) -> (r: Vec<Effect>)
        requires
            Self::center_key_ok(*old(self), code),
        ensures
            Self::center_key_post(*old(self), code, *final(self), effect_views(r@)),
    {
        match self.center_view {
            CenterView::Diff => {
                if code == KeyCode::Char('j') || code == KeyCode::Down {
                    if self.diff.scroll < usize::MAX {
                        self.diff.scroll = self.diff.scroll + 1;
                    }
                } else if code == KeyCode::Char('k') || code == KeyCode::Up {
                    self.diff.scroll = self.diff.scroll.saturating_sub(1);
                } else if code == KeyCode::Char('g') {
                    self.diff.scroll = 0;
                } else if code == KeyCode::Char('G') {
                    self.diff.scroll = usize::MAX / 2;
                } else if code == KeyCode::Char('v') {
                    self.diff.side_by_side = !self.diff.side_by_side;
                } else if code == KeyCode::Char('n') {
                    self.diff_prev();
                } else if code == KeyCode::Char('N') {
                    self.diff_next();
                }
            },
            CenterView::HistoryDiff => {
                if code == KeyCode::Char('j') || code == KeyCode::Down {
                    if self.history.detail_scroll < usize::MAX {
                        self.history.detail_scroll = self.history.detail_scroll + 1;
                    }
                } else if code == KeyCode::Char('k') || code == KeyCode::Up {
                    self.history.detail_scroll = self.history.detail_scroll.saturating_sub(1);
                }
            },
            CenterView::Editor => {
                if code == KeyCode::Enter {
                    self.input_mode = InputMode::Edit;
                }
            },
        }
        none()
    }

    fn handle_history_key(&mut self, code: KeyCode) -> (r: Vec<Effect>)
        requires
            Self::history_key_ok(*old(self), code),
        ensures
            Self::history_key_post(*old(self), code, *final(self), effect_views(r@)),
    {
        if self.history.in_files {
            if code == KeyCode::Char('j') || code == KeyCode::Down {
                self.history.files_selected = step_down_exec(self.history.files_selected, self.history.files.len());
                none()
            } else if code == KeyCode::Char('k') || code == KeyCode::Up {
                self.history.files_selected = self.history.files_selected.saturating_sub(1);
                none()
            } else if code == KeyCode::Enter {
                self.open_history_file()
            } else if code == KeyCode::Esc {
                self.history.in_files = false;
                none()
            } else {
                none()
            }
        } else {
            if code == KeyCode::Char('j') || code == KeyCode::Down {
                self.history.selected = step_down_exec(self.history.selected, self.history.commits.len());
                none()
            } else if code == KeyCode::Char('k') || code == KeyCode::Up {
                self.history.selected = self.history.selected.saturating_sub(1);
                none()
            } else if code == KeyCode::Char('g') {
                self.history.selected = 0;
                none()
            } else if code == KeyCode::Char('G') {
                self.history.selected = self.history.commits.len().saturating_sub(1);
                none()
            } else if code == KeyCode::Enter {
                self.select_commit()
            } else {
                none()
            }
        }
    }

    fn handle_terminal_key(&mut self, code: KeyCode) -> (r: Vec<Effect>)
        ensures
            Self::terminal_key_post(*old(self), code, *final(self), effect_views(r@)),
    {
        if code == KeyCode::Char('i') || code == KeyCode::Enter {
            self.input_mode = InputMode::Command;
            self.input = String::new();
            self.runner.visible = true;
        }
        none()
    }

    fn handle_workspace_key(&mut self, code: KeyCode) -> (r: Vec<Effect>)
        requires
            Self::workspace_key_ok(*old(self), code),
        ensures
            Self::workspace_key_post(*old(self), code, *final(self), effect_views(r@)),
    {
        if self.branches.visible {
            if code == KeyCode::Esc {
                self.branches.visible = false;
                none()
            } else if code == KeyCode::Char('j') || code == KeyCode::Down {
                self.branches.selected = step_down_exec(self.branches.selected, self.branches.items.len());
                none()
            } else if code == KeyCode::Char('k') || code == KeyCode::Up {
                self.branches.selected = self.branches.selected.saturating_sub(1);
                none()
            } else if code == KeyCode::Enter {
                self.checkout_selected()
            } else if code == KeyCode::Char('c') {
                self.branches.visible = false;
                self.input_mode = InputMode::Branch;
                self.input = String::new();
                none()
            } else {
                none()
            }
        } else if code == KeyCode::Char('q') {
            self.should_quit = true;
            none()
        } else if code == KeyCode::Char('?') {
            self.help_open = true;
            none()
        } else if code == KeyCode::Char('t') {
            self.runner.visible = !self.runner.visible;
            none()
        } else if code == KeyCode::Char('r') {
            let mut effects = none();
            self.reload_all(&mut effects);
            effects
        } else if code == KeyCode::Char('x') {
            self.close_repo()
        } else if code == KeyCode::Char('b') {
            self.branches.visible = true;
            self.branches.selected = current_position(&self.branches.items);
            none()
        } else if code == KeyCode::Char('P') {
            self.push()
        } else if code == KeyCode::Char('F') {
            self.pull()
        } else if code == KeyCode::Tab {
            self.focus_next();
            none()
        } else if code == KeyCode::BackTab {
            self.focus_prev();
            none()
        } else if code == KeyCode::Char('1') {
            self.focus = Panel::Left;
            none()
        } else if code == KeyCode::Char('2') {
            self.focus = Panel::Center;
            none()
        } else if code == KeyCode::Char('3') {
            self.focus = Panel::History;
            none()
        } else if code == KeyCode::Char('4') {
            self.focus = Panel::Terminal;
            none()
        } else if code == KeyCode::Char('[') {
            self.left_tab = LeftTab::Changes;
            self.focus = Panel::Left;
            none()
        } else if code == KeyCode::Char(']') {
            self.left_tab = LeftTab::Files;
            self.focus = Panel::Left;
            none()
        } else {
            match self.focus {
                Panel::Left => self.handle_left_key(code),
                Panel::Center => self.handle_center_key(code),
                Panel::History => self.handle_history_key(code),
                Panel::Terminal => self.handle_terminal_key(code),
            }
        }
    }

    pub(crate) fn handle_key(&mut self, key: Key) -> (r: Vec<Effect>)
        requires
            Self::key_ok(*old(self), key),
        ensures
            Self::key_post(*old(self), key, *final(self), effect_views(r@)),
    {
        if key.release {
            return none();
        }
        self.status_msg = None;
        self.error_msg = None;
        if key.ctrl {
            if key.code == KeyCode::Char('c') {
                if self.input_mode == InputMode::Command {
                    self.runner.interrupt();
                    return one(Effect::KillCommand);
                } else {
                    self.should_quit = true;
                    return none();
                }
            } else if key.code == KeyCode::Char('s') && self.input_mode == InputMode::Edit {
                return self.save_file();
            } else {
                return none();
            }
        }
        match self.input_mode {
            InputMode::Path | InputMode::Commit | InputMode::Branch | InputMode::Command => self.handle_input_key(key.code),
            InputMode::Edit => self.handle_edit_key(key.code),
            InputMode::Normal => {
                if self.help_open {
                    if key.code == KeyCode::Esc || key.code == KeyCode::Char('q') || key.code == KeyCode::Char('?') {
                        self.help_open = false;
                    }
                    none()
                } else {
                    match self.mode {
                        Mode::Welcome => self.handle_welcome_key(key.code),
                        Mode::Workspace => self.handle_workspace_key(key.code),
                    }
                }
            },
        }
    }
}

/// No effect.
pub fn none() -> (r: Vec<Effect>)
    ensures
        effect_views(r@) == Seq::<EffectView>::empty(),
{
    let r: Vec<Effect> = Vec::new();
    assert(effect_views(r@) =~= Seq::<EffectView>::empty());
    r
}

/// One effect.
pub fn one(e: Effect) -> (r: Vec<Effect>)
    ensures
        effect_views(r@) == seq![e@],
{
    let mut r: Vec<Effect> = Vec::new();
    let ghost v = e@;
    r.push(e);
    assert(effect_views(r@) =~= seq![v]);
    r
}

fn current_position(items: &Vec<BranchInfo>) -> (r: usize)
    ensures
        r == current_pos(items@, 0),
{
    let mut i: usize = 0;
    while i < items.len()
        invariant
            0 <= i <= items.len(),
            current_pos(items@, 0) == current_pos(items@, i as int),
        decreases items.len() - i,
    {
        if items[i].is_current {
            return i;
        }
        i = i + 1;
    }
    0
}

} // verus!

