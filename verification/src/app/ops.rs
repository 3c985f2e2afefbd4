//! The operations behind the keys: repository, changes, diff, history,
//! branches, file tree and editor.
use vstd::prelude::*;

use crate::app::{
    clamp_sel, is_text, sat_dec, App, BranchState, CenterView, ChangesState, DiffState, EditorState,
    HistoryState, InputMode, Mode, Panel,
};
use crate::diff::{align, cap_rows, line_diff, row_seq, side_by_side, DiffRow, DiffTag};
use crate::edit::{byte_len, bytes_of};
use crate::event::{effect_views, ev, Effect, EffectKind, EffectView};
use crate::filetree::{FileTreeState, FlatRow};
use crate::git::strings;
use crate::git::types::{Area, DiffSides, FileChange};
use crate::git::trimmed;
use crate::terminal::{pushed, texts};
use crate::text::{
    chars_of, concat, join_strings, join_with, split_chars, split_on, string_of, trim, views_of, CharClass,
};

verus! {

// ---------------------------------------------------------------------------
// Spec helpers
// ---------------------------------------------------------------------------

/// The paths of the changes that are not staged, in order.
pub open spec fn unstaged_paths(items: Seq<FileChange>) -> Seq<Seq<char>>
    decreases items.len(),
{
    if items.len() == 0 {
        seq![]
    } else {
        unstaged_paths(items.drop_last()) + if items.last().area != Area::Staged {
            seq![items.last().path@]
        } else {
            seq![]
        }
    }
}

/// The positions of the rows that are not equal lines, in order.
pub open spec fn hunk_positions(rows: Seq<(DiffTag, Option<Seq<char>>, Option<Seq<char>>)>) -> Seq<usize>
    decreases rows.len(),
{
    if rows.len() == 0 {
        seq![]
    } else {
        hunk_positions(rows.drop_last()) + if rows.last().0 != DiffTag::Equal {
            seq![(rows.len() - 1) as usize]
        } else {
            seq![]
        }
    }
}

pub open spec fn tree_empty(t: FileTreeState) -> bool {
    t.root@.len() == 0 && t.children@ == Map::<Seq<char>, Vec<crate::git::types::DirEntry>>::empty() && t.open@
        == Set::<Seq<char>>::empty() && t.selected == 0
}

pub open spec fn changes_empty(c: ChangesState) -> bool {
    c.items@.len() == 0 && c.selected == 0
}

pub open spec fn history_empty(h: HistoryState) -> bool {
    h.commits@.len() == 0 && h.selected == 0 && !h.in_files && h.files@.len() == 0 && h.files_selected == 0
        && h.selected_hash is None && h.detail is None && h.detail_scroll == 0
}

pub open spec fn branches_empty(b: BranchState) -> bool {
    b.items@.len() == 0 && b.current@.len() == 0 && !b.visible && b.selected == 0
}

pub open spec fn editor_empty(e: EditorState) -> bool {
    e.path@.len() == 0 && e.lines@.len() == 0 && e.cursor_line == 0 && e.cursor_col == 0 && !e.dirty && e.scroll == 0
}

pub open spec fn diff_empty(d: DiffState) -> bool {
    d.path@.len() == 0 && !d.staged && !d.untracked && d.sides@ == (
        Seq::<char>::empty(),
        Seq::<char>::empty(),
        Seq::<char>::empty(),
        Seq::<char>::empty(),
        false,
    ) && d.unified@.len() == 0 && d.rows@.len() == 0 && d.hunks@.len() == 0 && d.hunk_idx == 0 && d.side_by_side
        && d.scroll == 0 && !d.loading
}

pub open spec fn repo_of(o: App) -> Seq<char> {
    o.repo_path->0@
}

fn push_effect(effects: &mut Vec<Effect>, e: Effect)
    ensures
        effect_views(final(effects)@) == effect_views(old(effects)@).push(e@),
{
    effects.push(e);
    assert(effect_views(effects@) =~= effect_views(old(effects)@).push(e@));
}

fn repo_clone(repo: &Option<String>) -> (r: String)
    requires
        repo is Some,
    ensures
        r@ == repo->0@,
{
    match repo {
        Some(r) => r.clone(),
        None => String::new(),
    }
}

/// The paths of the changes that are not staged.
pub(crate) fn unstaged_list(items: &Vec<FileChange>) -> (paths: Vec<String>)
    ensures
        strings(paths@) == unstaged_paths(items@),
{
    let mut paths: Vec<String> = Vec::new();
    let mut i: usize = 0;
    while i < items.len()
        invariant
            0 <= i <= items.len(),
            strings(paths@) == unstaged_paths(items@.take(i as int)),
        decreases items.len() - i,
    {
        assert(items@.take(i + 1).drop_last() =~= items@.take(i as int));
        let ghost prev = strings(paths@);
        if items[i].area != Area::Staged {
            paths.push(items[i].path.clone());
            assert(strings(paths@) =~= prev.push(items@[i as int].path@));
        }
        assert(strings(paths@) =~= unstaged_paths(items@.take(i + 1)));
        i = i + 1;
    }
    assert(items@.take(items.len() as int) =~= items@);
    paths
}

impl App {
    // -----------------------------------------------------------------------
    // Repository
    // -----------------------------------------------------------------------

    /// Asks to open the repository at `path`.
    pub fn request_open_repo(&mut self, path: String) -> (r: Vec<Effect>)
        ensures
            *final(self) == *old(self),
            effect_views(r@) == seq![ev(EffectKind::OpenRepo, seq![path@])],
    {
        let mut effects: Vec<Effect> = Vec::new();
        push_effect(&mut effects, Effect::OpenRepo { path });
        effects
    }

    /// The state after the repository at `path` (named `name`) was opened.
    pub open spec fn repo_opened_post(o: App, path: Seq<char>, name: Seq<char>, n: App, e: Seq<EffectView>) -> bool {
        &&& n == (App {
            repo_path: n.repo_path,
            repo_name: n.repo_name,
            mode: Mode::Workspace,
            input_mode: InputMode::Normal,
            input: n.input,
            recent_selected: 0,
            watching: true,
            status_msg: n.status_msg,
            ..o
        })
        &&& n.repo_path matches Some(p) && p@ == path
        &&& n.repo_name@ == name
        &&& n.input@.len() == 0
        &&& is_text(n.status_msg, "已打开 "@ + path)
        &&& e == seq![
            ev(EffectKind::RecordRecent, seq![path, name]),
            ev(EffectKind::StartWatcher, seq![path]),
        ] + n.reload_all_spec()
    }

    pub(crate) fn on_repo_opened(&mut self, path: String, name: String, effects: &mut Vec<Effect>)
        ensures
            Self::repo_opened_post(*old(self), path@, name@, *final(self), effect_views(final(effects)@).skip(
                old(effects)@.len() as int,
            )),
            final(effects)@.len() >= old(effects)@.len(),
            effect_views(final(effects)@).take(old(effects)@.len() as int) == effect_views(old(effects)@),
    {
        let ghost start = effect_views(effects@);
        self.repo_path = Some(path.clone());
        self.repo_name = name.clone();
        self.mode = crate::app::Mode::Workspace;
        self.input_mode = InputMode::Normal;
        self.input = String::new();
        push_effect(effects, Effect::RecordRecent { path: path.clone(), name });
        self.recent_selected = 0;
        push_effect(effects, Effect::StartWatcher { path: path.clone() });
        self.watching = true;
        self.reload_all(effects);
        self.status_msg = Some(concat("已打开 ", path.as_str()));
        assert(effect_views(effects@).skip(start.len() as int) =~= seq![
            ev(EffectKind::RecordRecent, seq![path@, name@]),
            ev(EffectKind::StartWatcher, seq![path@]),
        ] + self.reload_all_spec());
        assert(effect_views(effects@).take(start.len() as int) =~= start);
    }

    /// The state after closing the repository.
    pub open spec fn close_repo_post(o: App, n: App, e: Seq<EffectView>) -> bool {
        &&& n == (App {
            watching: false,
            repo_path: None,
            repo_name: n.repo_name,
            current_branch: n.current_branch,
            mode: Mode::Welcome,
            changes: n.changes,
            history: n.history,
            branches: n.branches,
            filetree: n.filetree,
            editor: n.editor,
            diff: n.diff,
            ..o
        })
        &&& n.repo_name@.len() == 0
        &&& n.current_branch@.len() == 0
        &&& changes_empty(n.changes)
        &&& history_empty(n.history)
        &&& branches_empty(n.branches)
        &&& tree_empty(n.filetree)
        &&& editor_empty(n.editor)
        &&& diff_empty(n.diff)
        &&& e == seq![ev(EffectKind::StopWatcher, seq![])]
    }

    pub(crate) fn close_repo(&mut self) -> (r: Vec<Effect>)
        ensures
            Self::close_repo_post(*old(self), *final(self), effect_views(r@)),
    {
        let mut effects: Vec<Effect> = Vec::new();
        push_effect(&mut effects, Effect::StopWatcher);
        self.watching = false;
        self.repo_path = None;
        self.repo_name = String::new();
        self.current_branch = String::new();
        self.mode = Mode::Welcome;
        self.changes = ChangesState::default();
        self.history = HistoryState::default();
        self.branches = BranchState::default();
        self.filetree = FileTreeState::new();
        self.editor = EditorState::default();
        self.diff = DiffState::default();
        assert(effect_views(effects@) =~= seq![ev(EffectKind::StopWatcher, seq![])]);
        effects
    }

    // -----------------------------------------------------------------------
    // Changes
    // -----------------------------------------------------------------------

    /// Staging operations need an open repository when there is a selected
    /// change.
    pub open spec fn selected_change_ok(o: App) -> bool {
        o.changes.selected < o.changes.items@.len() ==> o.repo_path is Some
    }

    /// Space on a change: a staged change is unstaged, any other is staged.
    pub open spec fn toggle_stage_effects(o: App) -> Seq<EffectView> {
        if o.changes.selected < o.changes.items@.len() {
            let fc = o.changes.items@[o.changes.selected as int];
            if fc.area == Area::Staged {
                seq![ev(EffectKind::Unstage, seq![repo_of(o), fc.path@])]
            } else {
                seq![ev(EffectKind::Stage, seq![repo_of(o), fc.path@])]
            }
        } else {
            seq![]
        }
    }

    /// `u` on a change: a staged change is unstaged.
    pub open spec fn unstage_effects(o: App) -> Seq<EffectView> {
        if o.changes.selected < o.changes.items@.len() && o.changes.items@[o.changes.selected as int].area
            == Area::Staged {
            seq![ev(EffectKind::Unstage, seq![repo_of(o), o.changes.items@[o.changes.selected as int].path@])]
        } else {
            seq![]
        }
    }

    /// `a`: every change that is not staged is staged in one go.
    pub open spec fn stage_all_effects(o: App) -> Seq<EffectView> {
        if unstaged_paths(o.changes.items@).len() > 0 {
            seq![ev(EffectKind::Stage, seq![repo_of(o)] + unstaged_paths(o.changes.items@))]
        } else {
            seq![]
        }
    }

    pub(crate) fn toggle_stage_selected(&self, effects: &mut Vec<Effect>)
        requires
            Self::selected_change_ok(*self),
        ensures
            effect_views(final(effects)@) == effect_views(old(effects)@) + Self::toggle_stage_effects(*self),
    {
        if self.changes.selected < self.changes.items.len() {
            let fc = &self.changes.items[self.changes.selected];
            let repo = repo_clone(&self.repo_path);
            let mut paths: Vec<String> = Vec::new();
            paths.push(fc.path.clone());
            assert(strings(paths@) =~= seq![fc.path@]);
            assert(seq![repo@] + strings(paths@) =~= seq![repo@, fc.path@]);
            if fc.area == Area::Staged {
                push_effect(effects, Effect::Unstage { repo, paths });
            } else {
                push_effect(effects, Effect::Stage { repo, paths });
            }
            assert(effect_views(effects@) =~= effect_views(old(effects)@) + Self::toggle_stage_effects(*self));
        } else {
            assert(effect_views(effects@) =~= effect_views(old(effects)@) + Self::toggle_stage_effects(*self));
        }
    }

    pub(crate) fn unstage_selected(&self, effects: &mut Vec<Effect>)
        requires
            Self::selected_change_ok(*self),
        ensures
            effect_views(final(effects)@) == effect_views(old(effects)@) + Self::unstage_effects(*self),
    {
        if self.changes.selected < self.changes.items.len() && self.changes.items[self.changes.selected].area
            == Area::Staged {
            let fc = &self.changes.items[self.changes.selected];
            let repo = repo_clone(&self.repo_path);
            let mut paths: Vec<String> = Vec::new();
            paths.push(fc.path.clone());
            assert(strings(paths@) =~= seq![fc.path@]);
            assert(seq![repo@] + strings(paths@) =~= seq![repo@, fc.path@]);
            push_effect(effects, Effect::Unstage { repo, paths });
        }
        assert(effect_views(effects@) =~= effect_views(old(effects)@) + Self::unstage_effects(*self));
    }

    pub(crate) fn stage_all(&self, effects: &mut Vec<Effect>)
        requires
            unstaged_paths(self.changes.items@).len() > 0 ==> self.repo_path is Some,
        ensures
            effect_views(final(effects)@) == effect_views(old(effects)@) + Self::stage_all_effects(*self),
    {
        let paths = unstaged_list(&self.changes.items);
        assert(strings(paths@).len() == paths@.len());
        if paths.len() > 0 {
            let repo = repo_clone(&self.repo_path);
            push_effect(effects, Effect::Stage { repo, paths });
        }
        assert(effect_views(effects@) =~= effect_views(old(effects)@) + Self::stage_all_effects(*self));
    }

    /// A commit with a message that is not blank.
    pub open spec fn commit_effects(o: App, msg: Seq<char>) -> Seq<EffectView> {
        if trim(msg, CharClass::Whitespace).len() == 0 {
            seq![]
        } else {
            seq![ev(EffectKind::Commit, seq![repo_of(o), msg])]
        }
    }

    pub(crate) fn do_commit(&self, msg: String, effects: &mut Vec<Effect>)
        requires
            trim(msg@, CharClass::Whitespace).len() > 0 ==> self.repo_path is Some,
        ensures
            effect_views(final(effects)@) == effect_views(old(effects)@) + Self::commit_effects(*self, msg@),
    {
        let t = trimmed(msg.as_str());
        if !t.as_str().is_empty() {
            let repo = repo_clone(&self.repo_path);
            push_effect(effects, Effect::Commit { repo, message: msg });
        }
        assert(effect_views(effects@) =~= effect_views(old(effects)@) + Self::commit_effects(*self, msg@));
    }

    // -----------------------------------------------------------------------
    // Diff
    // -----------------------------------------------------------------------

    /// The state while the diff of a change loads.
    pub open spec fn load_diff_post(o: App, path: Seq<char>, staged: bool, untracked: bool, n: App, e: Seq<EffectView>) -> bool {
        &&& n == (App {
            diff: DiffState { loading: true, ..o.diff },
            center_view: CenterView::Diff,
            focus: Panel::Center,
            ..o
        })
        &&& e == seq![(EffectKind::LoadDiff, seq![repo_of(o), path], staged, untracked, 0u64)]
    }

    pub(crate) fn load_diff(&mut self, path: String, staged: bool, untracked: bool, effects: &mut Vec<Effect>)
        requires
            old(self).repo_path is Some,
        ensures
            Self::load_diff_post(*old(self), path@, staged, untracked, *final(self), effect_views(final(effects)@).skip(old(effects)@.len() as int)),
            effect_views(final(effects)@).take(old(effects)@.len() as int) == effect_views(old(effects)@),
    {
        let ghost start = effect_views(effects@);
        self.diff.loading = true;
        self.center_view = CenterView::Diff;
        self.focus = Panel::Center;
        let repo = repo_clone(&self.repo_path);
        push_effect(effects, Effect::LoadDiff { repo, path, staged, untracked });
        assert(effect_views(effects@).skip(start.len() as int) =~= seq![(EffectKind::LoadDiff, seq![repo_of(*old(self)), path@], staged, untracked, 0u64)]);
        assert(effect_views(effects@).take(start.len() as int) =~= start);
    }

    /// Enter on a change: load its diff.
    pub open spec fn select_change_post(o: App, n: App, e: Seq<EffectView>) -> bool {
        if o.changes.selected < o.changes.items@.len() {
            let fc = o.changes.items@[o.changes.selected as int];
            Self::load_diff_post(o, fc.path@, fc.area == Area::Staged, fc.area == Area::Untracked, n, e)
        } else {
            n == o && e == Seq::<EffectView>::empty()
        }
    }

    pub(crate) fn select_change(&mut self) -> (r: Vec<Effect>)
        requires
            Self::selected_change_ok(*old(self)),
        ensures
            Self::select_change_post(*old(self), *final(self), effect_views(r@)),
    {
        let mut effects: Vec<Effect> = Vec::new();
        if self.changes.selected < self.changes.items.len() {
            let fc = self.changes.items[self.changes.selected].duplicate();
            let staged = fc.area == Area::Staged;
            let untracked = fc.area == Area::Untracked;
            self.load_diff(fc.path, staged, untracked, &mut effects);
            assert(effect_views(effects@).skip(0) =~= effect_views(effects@));
        } else {
            assert(effect_views(effects@) =~= Seq::<EffectView>::empty());
        }
        effects
    }

    /// The rows of a loaded diff: none for binary sides, otherwise the
    /// side-by-side alignment, at most 2000 rows.
    pub open spec fn diff_rows_spec(sides: DiffSides) -> Seq<(DiffTag, Option<Seq<char>>, Option<Seq<char>>)> {
        if sides.binary {
            seq![]
        } else {
            cap_rows(align(line_diff(sides.left@, sides.right@)), 2000)
        }
    }

    /// The state after the diff of `path` arrived: a fresh diff view at its
    /// top, side by side, on the first difference.
    pub open spec fn diff_loaded_post(o: App, path: String, staged: bool, untracked: bool, sides: DiffSides, unified: String, n: App) -> bool {
        &&& n == (App { diff: n.diff, ..o })
        &&& n.diff == (DiffState {
            path,
            staged,
            untracked,
            sides,
            unified,
            rows: n.diff.rows,
            hunks: n.diff.hunks,
            hunk_idx: 0,
            side_by_side: true,
            scroll: 0,
            loading: false,
        })
        &&& row_seq(n.diff.rows@) == Self::diff_rows_spec(sides)
        &&& n.diff.hunks@ == hunk_positions(row_seq(n.diff.rows@))
    }

    pub(crate) fn on_diff_loaded(&mut self, path: String, staged: bool, untracked: bool, sides: DiffSides, unified: String)
        ensures
            Self::diff_loaded_post(*old(self), path, staged, untracked, sides, unified, *final(self)),
    {
        let rows = if sides.binary {
            let v: Vec<DiffRow> = Vec::new();
            assert(row_seq(v@) =~= Seq::<(DiffTag, Option<Seq<char>>, Option<Seq<char>>)>::empty());
            v
        } else {
            side_by_side(sides.left.as_str(), sides.right.as_str(), 2000)
        };
        let mut hunks: Vec<usize> = Vec::new();
        let mut i: usize = 0;
        while i < rows.len()
            invariant
                0 <= i <= rows.len(),
                hunks@ == hunk_positions(row_seq(rows@).take(i as int)),
            decreases rows.len() - i,
        {
            assert(row_seq(rows@).take(i + 1).drop_last() =~= row_seq(rows@).take(i as int));
            assert(row_seq(rows@).take(i + 1).last() == rows@[i as int]@);
            if rows[i].tag != DiffTag::Equal {
                hunks.push(i);
            }
            assert(hunks@ =~= hunk_positions(row_seq(rows@).take(i + 1)));
            i = i + 1;
        }
        assert(row_seq(rows@).take(rows.len() as int) =~= row_seq(rows@));
        self.diff = DiffState {
            path,
            staged,
            untracked,
            sides,
            unified,
            rows,
            hunks,
            hunk_idx: 0,
            side_by_side: true,
            scroll: 0,
            loading: false,
        };
    }

    /// The view scrolled to four rows above the current difference.
    pub open spec fn centered_scroll(d: DiffState) -> usize {
        if d.hunk_idx < d.hunks@.len() {
            sat_dec_by(d.hunks@[d.hunk_idx as int] as int, 4) as usize
        } else {
            d.scroll
        }
    }

    fn diff_center_active(&mut self)
        ensures
            *final(self) == (App { diff: DiffState { scroll: Self::centered_scroll(old(self).diff), ..old(self).diff }, ..*old(self) }),
    {
        if self.diff.hunk_idx < self.diff.hunks.len() {
            let row = self.diff.hunks[self.diff.hunk_idx];
            self.diff.scroll = row.saturating_sub(4);
        }
    }

    /// `N`: the next difference (wrapping), centered.
    pub open spec fn diff_next_post(o: App, n: App) -> bool {
        if o.diff.hunks@.len() == 0 {
            n == o
        } else {
            let idx = ((o.diff.hunk_idx + 1) % (o.diff.hunks@.len() as int)) as usize;
            let d = DiffState { hunk_idx: idx, ..o.diff };
            n == (App { diff: DiffState { scroll: Self::centered_scroll(d), ..d }, ..o })
        }
    }

    pub(crate) fn diff_next(&mut self)
        requires
            old(self).diff.hunks@.len() > 0 ==> old(self).diff.hunk_idx < usize::MAX,
        ensures
            Self::diff_next_post(*old(self), *final(self)),
    {
        if self.diff.hunks.len() == 0 {
            return;
        }
        self.diff.hunk_idx = (self.diff.hunk_idx + 1) % self.diff.hunks.len();
        self.diff_center_active();
    }

    /// `n`: the previous difference (wrapping), centered.
    pub open spec fn diff_prev_post(o: App, n: App) -> bool {
        if o.diff.hunks@.len() == 0 {
            n == o
        } else {
            let len = o.diff.hunks@.len() as int;
            let idx = ((o.diff.hunk_idx + len - 1) % len) as usize;
            let d = DiffState { hunk_idx: idx, ..o.diff };
            n == (App { diff: DiffState { scroll: Self::centered_scroll(d), ..d }, ..o })
        }
    }

    pub(crate) fn diff_prev(&mut self)
        requires
            old(self).diff.hunks@.len() > 0 ==> old(self).diff.hunk_idx + old(self).diff.hunks@.len() <= usize::MAX + 1,
        ensures
            Self::diff_prev_post(*old(self), *final(self)),
    {
        if self.diff.hunks.len() == 0 {
            return;
        }
        let len = self.diff.hunks.len();
        self.diff.hunk_idx = (self.diff.hunk_idx + (len - 1)) % len;
        self.diff_center_active();
    }

    // -----------------------------------------------------------------------
    // History
    // -----------------------------------------------------------------------

    /// Enter on a commit: it becomes the selected one, the list switches to
    /// its files, and they are loaded.
    pub open spec fn select_commit_post(o: App, n: App, e: Seq<EffectView>) -> bool {
        if o.history.selected < o.history.commits@.len() {
            let hash = o.history.commits@[o.history.selected as int].hash@;
            &&& n == (App {
                history: HistoryState {
                    selected_hash: n.history.selected_hash,
                    in_files: true,
                    files_selected: 0,
                    ..o.history
                },
                ..o
            })
            &&& is_text(n.history.selected_hash, hash)
            &&& e == seq![ev(EffectKind::LoadCommitFiles, seq![repo_of(o), hash])]
        } else {
            n == o && e == Seq::<EffectView>::empty()
        }
    }

    pub(crate) fn select_commit(&mut self) -> (r: Vec<Effect>)
        requires
            old(self).history.selected < old(self).history.commits@.len() ==> old(self).repo_path is Some,
        ensures
            Self::select_commit_post(*old(self), *final(self), effect_views(r@)),
    {
        let mut effects: Vec<Effect> = Vec::new();
        if self.history.selected < self.history.commits.len() {
            let hash = self.history.commits[self.history.selected].hash.clone();
            self.history.selected_hash = Some(hash.clone());
            self.history.in_files = true;
            self.history.files_selected = 0;
            let repo = repo_clone(&self.repo_path);
            push_effect(&mut effects, Effect::LoadCommitFiles { repo, hash });
            assert(effect_views(effects@) =~= seq![ev(EffectKind::LoadCommitFiles, seq![repo_of(*old(self)), old(self).history.commits@[old(self).history.selected as int].hash@])]);
        } else {
            assert(effect_views(effects@) =~= Seq::<EffectView>::empty());
        }
        effects
    }

    /// Enter on a file of the selected commit: its patch is loaded.
    pub open spec fn history_file_effects(o: App) -> Seq<EffectView> {
        match o.history.selected_hash {
            Some(h) => if o.history.files_selected < o.history.files@.len() {
                seq![ev(EffectKind::LoadHistoryFile, seq![repo_of(o), h@, o.history.files@[o.history.files_selected as int].path@])]
            } else {
                seq![]
            },
            None => seq![],
        }
    }

    pub(crate) fn open_history_file(&self) -> (r: Vec<Effect>)
        requires
            self.history.selected_hash is Some && self.history.files_selected < self.history.files@.len() ==> self.repo_path is Some,
        ensures
            effect_views(r@) == Self::history_file_effects(*self),
    {
        let mut effects: Vec<Effect> = Vec::new();
        match &self.history.selected_hash {
            Some(h) => {
                if self.history.files_selected < self.history.files.len() {
                    let path = self.history.files[self.history.files_selected].path.clone();
                    let repo = repo_clone(&self.repo_path);
                    push_effect(&mut effects, Effect::LoadHistoryFile { repo, hash: h.clone(), path });
                }
            },
            None => {},
        }
        assert(effect_views(effects@) =~= Self::history_file_effects(*self));
        effects
    }

    // -----------------------------------------------------------------------
    // Branches
    // -----------------------------------------------------------------------

    /// Enter in the branch popup: the popup closes and the selected branch is
    /// checked out.
    pub open spec fn checkout_post(o: App, n: App, e: Seq<EffectView>) -> bool {
        if o.branches.selected < o.branches.items@.len() {
            &&& n == (App { branches: BranchState { visible: false, ..o.branches }, ..o })
            &&& e == seq![ev(EffectKind::Checkout, seq![repo_of(o), o.branches.items@[o.branches.selected as int].name@])]
        } else {
            n == o && e == Seq::<EffectView>::empty()
        }
    }

    pub(crate) fn checkout_selected(&mut self) -> (r: Vec<Effect>)
        requires
            old(self).branches.selected < old(self).branches.items@.len() ==> old(self).repo_path is Some,
        ensures
            Self::checkout_post(*old(self), *final(self), effect_views(r@)),
    {
        let mut effects: Vec<Effect> = Vec::new();
        if self.branches.selected < self.branches.items.len() {
            let branch = self.branches.items[self.branches.selected].name.clone();
            self.branches.visible = false;
            let repo = repo_clone(&self.repo_path);
            push_effect(&mut effects, Effect::Checkout { repo, branch });
            assert(effect_views(effects@) =~= seq![ev(EffectKind::Checkout, seq![repo_of(*old(self)), old(self).branches.items@[old(self).branches.selected as int].name@])]);
        } else {
            assert(effect_views(effects@) =~= Seq::<EffectView>::empty());
        }
        effects
    }

    /// A new branch with a name that is not blank.
    pub open spec fn create_branch_effects(o: App, name: Seq<char>) -> Seq<EffectView> {
        if trim(name, CharClass::Whitespace).len() == 0 {
            seq![]
        } else {
            seq![ev(EffectKind::CreateBranch, seq![repo_of(o), name])]
        }
    }

    pub(crate) fn do_create_branch(&self, name: String, effects: &mut Vec<Effect>)
        requires
            trim(name@, CharClass::Whitespace).len() > 0 ==> self.repo_path is Some,
        ensures
            effect_views(final(effects)@) == effect_views(old(effects)@) + Self::create_branch_effects(*self, name@),
    {
        let t = trimmed(name.as_str());
        if !t.as_str().is_empty() {
            let repo = repo_clone(&self.repo_path);
            push_effect(effects, Effect::CreateBranch { repo, name });
        }
        assert(effect_views(effects@) =~= effect_views(old(effects)@) + Self::create_branch_effects(*self, name@));
    }

    // -----------------------------------------------------------------------
    // Remote
    // -----------------------------------------------------------------------

    /// Pushes the current branch.
    pub fn push(&mut self) -> (r: Vec<Effect>)
        requires
            old(self).repo_path is Some,
        ensures
            *final(self) == *old(self),
            effect_views(r@) == seq![ev(EffectKind::Push, seq![repo_of(*old(self))])],
    {
        let mut effects: Vec<Effect> = Vec::new();
        let repo = repo_clone(&self.repo_path);
        push_effect(&mut effects, Effect::Push { repo });
        effects
    }

    /// Pulls into the current branch (merging).
    pub fn pull(&mut self) -> (r: Vec<Effect>)
        requires
            old(self).repo_path is Some,
        ensures
            *final(self) == *old(self),
            effect_views(r@) == seq![ev(EffectKind::Pull, seq![repo_of(*old(self))])],
    {
        let mut effects: Vec<Effect> = Vec::new();
        let repo = repo_clone(&self.repo_path);
        push_effect(&mut effects, Effect::Pull { repo });
        effects
    }

    // -----------------------------------------------------------------------
    // File tree
    // -----------------------------------------------------------------------

    /// Opening or closing the directory `rel`: an open one closes; a closed
    /// one opens and its listing is loaded unless it already was.
    pub open spec fn toggle_dir_post(o: App, rel: Seq<char>, n: App, e: Seq<EffectView>) -> bool {
        &&& n == (App { filetree: FileTreeState { open: n.filetree.open, ..o.filetree }, ..o })
        &&& if o.filetree.open@.contains(rel) {
            n.filetree.open@ == o.filetree.open@.remove(rel) && e == Seq::<EffectView>::empty()
        } else {
            &&& n.filetree.open@ == o.filetree.open@.insert(rel)
            &&& e == if o.filetree.children@.contains_key(rel) {
                Seq::<EffectView>::empty()
            } else {
                seq![ev(EffectKind::ListDir, seq![repo_of(o), rel])]
            }
        }
    }

    pub(crate) fn toggle_dir(&mut self, rel: String) -> (r: Vec<Effect>)
        requires
            !old(self).filetree.open@.contains(rel@) && !old(self).filetree.children@.contains_key(rel@) ==> old(self).repo_path is Some,
        ensures
            Self::toggle_dir_post(*old(self), rel@, *final(self), effect_views(r@)),
    {
        let mut effects: Vec<Effect> = Vec::new();
        let ghost r = rel@;
        if self.filetree.open.contains(rel.as_str()) {
            self.filetree.open.remove(rel.as_str());
            assert(effect_views(effects@) =~= Seq::<EffectView>::empty());
        } else {
            self.filetree.open.insert(rel.clone());
            if !self.filetree.children.contains_key(rel.as_str()) {
                let repo = repo_clone(&self.repo_path);
                push_effect(&mut effects, Effect::ListDir { repo, path: rel });
                assert(effect_views(effects@) =~= seq![ev(EffectKind::ListDir, seq![repo_of(*old(self)), r])]);
            } else {
                assert(effect_views(effects@) =~= Seq::<EffectView>::empty());
            }
        }
        effects
    }

    /// The row of the file tree under the selection.
    pub open spec fn tree_row(o: App) -> Option<(int, Seq<char>, Seq<char>, bool)> {
        let rows = o.filetree.flat_spec();
        if o.filetree.selected < rows.len() {
            Some(rows[o.filetree.selected as int])
        } else {
            None
        }
    }

    /// Enter or `l` in the file tree: a directory opens or closes, a file is
    /// read for editing.
    pub open spec fn tree_activate_post(o: App, n: App, e: Seq<EffectView>) -> bool {
        match Self::tree_row(o) {
            Some(row) => if row.3 {
                Self::toggle_dir_post(o, row.1, n, e)
            } else {
                n == o && e == seq![ev(EffectKind::ReadFile, seq![repo_of(o), row.1])]
            },
            None => n == o && e == Seq::<EffectView>::empty(),
        }
    }

    /// The file tree can be walked, and work on a row has a repository.
    pub open spec fn tree_ok(o: App) -> bool {
        &&& (Self::tree_row(o) is Some ==> o.repo_path is Some)
    }

    pub(crate) fn filetree_activate(&mut self) -> (r: Vec<Effect>)
        requires
            Self::tree_ok(*old(self)),
        ensures
            Self::tree_activate_post(*old(self), *final(self), effect_views(r@)),
    {
        let flat = self.filetree.flat();
        if self.filetree.selected < flat.len() {
            let row: &FlatRow = &flat[self.filetree.selected];
            assert(crate::filetree::flat_views(flat@)[self.filetree.selected as int] == row@);
            if row.is_dir {
                return self.toggle_dir(row.path.clone());
            } else {
                return self.open_file_in_editor(row.path.clone());
            }
        }
        let e: Vec<Effect> = Vec::new();
        assert(effect_views(e@) =~= Seq::<EffectView>::empty());
        e
    }

    /// `h` in the file tree: a directory row closes.
    pub open spec fn tree_collapse_post(o: App, n: App) -> bool {
        match Self::tree_row(o) {
            Some(row) => if row.3 {
                n == (App { filetree: FileTreeState { open: n.filetree.open, ..o.filetree }, ..o })
                    && n.filetree.open@ == o.filetree.open@.remove(row.1)
            } else {
                n == o
            },
            None => n == o,
        }
    }

    pub(crate) fn filetree_collapse(&mut self)
        ensures
            Self::tree_collapse_post(*old(self), *final(self)),
    {
        let flat = self.filetree.flat();
        if self.filetree.selected < flat.len() {
            let row: &FlatRow = &flat[self.filetree.selected];
            assert(crate::filetree::flat_views(flat@)[self.filetree.selected as int] == row@);
            if row.is_dir {
                self.filetree.open.remove(row.path.as_str());
            }
        }
    }

    /// `e` in the file tree: a file row is read for editing.
    pub open spec fn tree_edit_effects(o: App) -> Seq<EffectView> {
        match Self::tree_row(o) {
            Some(row) => if !row.3 {
                seq![ev(EffectKind::ReadFile, seq![repo_of(o), row.1])]
            } else {
                seq![]
            },
            None => seq![],
        }
    }

    pub(crate) fn filetree_edit(&self) -> (r: Vec<Effect>)
        requires
            Self::tree_ok(*self),
        ensures
            effect_views(r@) == Self::tree_edit_effects(*self),
    {
        let flat = self.filetree.flat();
        if self.filetree.selected < flat.len() {
            let row: &FlatRow = &flat[self.filetree.selected];
            assert(crate::filetree::flat_views(flat@)[self.filetree.selected as int] == row@);
            if !row.is_dir {
                return self.open_file_in_editor(row.path.clone());
            }
        }
        let e: Vec<Effect> = Vec::new();
        assert(effect_views(e@) =~= Self::tree_edit_effects(*self));
        e
    }

    fn open_file_in_editor(&self, rel: String) -> (r: Vec<Effect>)
        requires
            self.repo_path is Some,
        ensures
            effect_views(r@) == seq![ev(EffectKind::ReadFile, seq![repo_of(*self), rel@])],
    {
        let mut effects: Vec<Effect> = Vec::new();
        let repo = repo_clone(&self.repo_path);
        push_effect(&mut effects, Effect::ReadFile { repo, path: rel });
        effects
    }

    // -----------------------------------------------------------------------
    // Editor
    // -----------------------------------------------------------------------

    /// The state after a file arrived for editing: its lines (split on
    /// `\n`), the cursor at the start, the editor shown and in edit mode.
    pub open spec fn file_loaded_post(o: App, path: String, content: Seq<char>, n: App) -> bool {
        &&& n == (App {
            editor: n.editor,
            center_view: CenterView::Editor,
            input_mode: InputMode::Edit,
            focus: Panel::Center,
            ..o
        })
        &&& n.editor == (EditorState { path, lines: n.editor.lines, cursor_line: 0, cursor_col: 0, dirty: false, scroll: 0 })
        &&& texts(n.editor.lines@) == split_on(content, '\n')
    }

    pub(crate) fn on_file_loaded(&mut self, path: String, content: String)
        ensures
            Self::file_loaded_post(*old(self), path, content@, *final(self)),
    {
        let v = chars_of(content.as_str());
        let pieces = split_chars(&v, '\n');
        let mut lines: Vec<String> = Vec::new();
        let mut i: usize = 0;
        while i < pieces.len()
            invariant
                0 <= i <= pieces.len(),
                texts(lines@) == views_of(pieces@).take(i as int),
            decreases pieces.len() - i,
        {
            let ghost prev = texts(lines@);
            lines.push(string_of(&pieces[i]));
            assert(texts(lines@) =~= prev.push(pieces@[i as int]@));
            assert(views_of(pieces@).take(i + 1) =~= views_of(pieces@).take(i as int).push(pieces@[i as int]@));
            i = i + 1;
        }
        assert(views_of(pieces@).take(pieces.len() as int) =~= views_of(pieces@));
        self.editor = EditorState { path, lines, cursor_line: 0, cursor_col: 0, dirty: false, scroll: 0 };
        self.center_view = CenterView::Editor;
        self.input_mode = InputMode::Edit;
        self.focus = Panel::Center;
    }

    /// Ctrl+S: a changed file is written back, its lines joined by `\n`.
    pub open spec fn save_effects(o: App) -> Seq<EffectView> {
        if o.editor.dirty {
            seq![ev(EffectKind::WriteFile, seq![repo_of(o), o.editor.path@, join_with(texts(o.editor.lines@), '\n')])]
        } else {
            seq![]
        }
    }

    pub(crate) fn save_file(&self) -> (r: Vec<Effect>)
        requires
            self.editor.dirty ==> self.repo_path is Some,
        ensures
            effect_views(r@) == Self::save_effects(*self),
    {
        let mut effects: Vec<Effect> = Vec::new();
        if self.editor.dirty {
            let content = join_strings(&self.editor.lines, '\n');
            assert(self.editor.lines@.map_values(|s: String| s@) == texts(self.editor.lines@));
            let repo = repo_clone(&self.repo_path);
            push_effect(&mut effects, Effect::WriteFile { repo, path: self.editor.path.clone(), content });
        }
        assert(effect_views(effects@) =~= Self::save_effects(*self));
        effects
    }

    /// The cursor column, taken no further than the end of its line.
    pub open spec fn clamped_col(e: EditorState) -> usize {
        if e.cursor_line < e.lines@.len() && e.cursor_col > bytes_of(e.lines@[e.cursor_line as int]@).len() {
            bytes_of(e.lines@[e.cursor_line as int]@).len() as usize
        } else {
            e.cursor_col
        }
    }

    pub(crate) fn clamp_editor_col(&mut self)
        ensures
            *final(self) == (App { editor: EditorState { cursor_col: Self::clamped_col(old(self).editor), ..old(self).editor }, ..*old(self) }),
    {
        if self.editor.cursor_line < self.editor.lines.len() {
            let n = byte_len(self.editor.lines[self.editor.cursor_line].as_str());
            if self.editor.cursor_col > n {
                self.editor.cursor_col = n;
            }
        }
    }

    // -----------------------------------------------------------------------
    // Focus
    // -----------------------------------------------------------------------

    pub open spec fn next_panel(p: Panel) -> Panel {
        match p {
            Panel::Left => Panel::Center,
            Panel::Center => Panel::History,
            Panel::History => Panel::Terminal,
            Panel::Terminal => Panel::Left,
        }
    }

    pub open spec fn prev_panel(p: Panel) -> Panel {
        match p {
            Panel::Left => Panel::Terminal,
            Panel::Center => Panel::Left,
            Panel::History => Panel::Center,
            Panel::Terminal => Panel::History,
        }
    }

    pub(crate) fn focus_next(&mut self)
        ensures
            *final(self) == (App { focus: Self::next_panel(old(self).focus), ..*old(self) }),
    {
        self.focus = match self.focus {
            Panel::Left => Panel::Center,
            Panel::Center => Panel::History,
            Panel::History => Panel::Terminal,
            Panel::Terminal => Panel::Left,
        };
    }

    pub(crate) fn focus_prev(&mut self)
        ensures
            *final(self) == (App { focus: Self::prev_panel(old(self).focus), ..*old(self) }),
    {
        self.focus = match self.focus {
            Panel::Left => Panel::Terminal,
            Panel::Center => Panel::Left,
            Panel::History => Panel::Center,
            Panel::Terminal => Panel::History,
        };
    }

    // -----------------------------------------------------------------------
    // Input line
    // -----------------------------------------------------------------------

    /// Confirming the input line needs a repository where the line is sent
    /// somewhere that needs one.
    pub open spec fn confirm_ok(o: App) -> bool {
        match o.input_mode {
            InputMode::Commit => trim(o.input@, CharClass::Whitespace).len() > 0 ==> o.repo_path is Some,
            InputMode::Branch => trim(o.input@, CharClass::Whitespace).len() > 0 ==> o.repo_path is Some,
            _ => true,
        }
    }

    /// Enter on the input line: the line is taken (emptied) and the mode goes
    /// back to normal; a path opens a repository, a message commits, a name
    /// creates a branch, a command runs in the repository (when one is open).
    pub open spec fn confirm_post(o: App, n: App, e: Seq<EffectView>) -> bool {
        let line = o.input@;
        match o.input_mode {
            InputMode::Path => n == (App { input: n.input, input_mode: InputMode::Normal, ..o }) && n.input@.len() == 0
                && e == seq![ev(EffectKind::OpenRepo, seq![line])],
            InputMode::Commit => n == (App { input: n.input, input_mode: InputMode::Normal, ..o }) && n.input@.len() == 0
                && e == Self::commit_effects(o, line),
            InputMode::Branch => n == (App { input: n.input, input_mode: InputMode::Normal, ..o }) && n.input@.len() == 0
                && e == Self::create_branch_effects(o, line),
            InputMode::Command => {
                &&& n == (App { input: n.input, input_mode: InputMode::Normal, runner: n.runner, ..o })
                &&& n.input@.len() == 0
                &&& if o.repo_path is None || trim(line, CharClass::Whitespace).len() == 0 {
                    n.runner == o.runner && e == Seq::<EffectView>::empty()
                } else {
                    let cmd = trim(line, CharClass::Whitespace);
                    &&& texts(n.runner.output@) == pushed(texts(o.runner.output@), "$ "@ + cmd)
                    &&& texts(n.runner.history@) == texts(o.runner.history@).push(cmd)
                    &&& n.runner.hist_idx is None
                    &&& n.runner.input@.len() == 0
                    &&& n.runner.running == o.runner.running
                    &&& n.runner.visible == o.runner.visible
                    &&& n.runner.height_percent == o.runner.height_percent
                    &&& n.runner.scroll == o.runner.scroll
                    &&& e == seq![ev(EffectKind::SpawnCommand, seq![repo_of(o), cmd])]
                }
            },
            _ => n == o && e == Seq::<EffectView>::empty(),
        }
    }

    pub(crate) fn confirm_input(&mut self) -> (r: Vec<Effect>)
        requires
            Self::confirm_ok(*old(self)),
        ensures
            Self::confirm_post(*old(self), *final(self), effect_views(r@)),
    {
        let mut effects: Vec<Effect> = Vec::new();
        match self.input_mode {
            InputMode::Path => {
                let p = self.input.clone();
                self.input = String::new();
                self.input_mode = InputMode::Normal;
                push_effect(&mut effects, Effect::OpenRepo { path: p });
                assert(effect_views(effects@) =~= seq![ev(EffectKind::OpenRepo, seq![old(self).input@])]);
            },
            InputMode::Commit => {
                let msg = self.input.clone();
                self.input = String::new();
                self.input_mode = InputMode::Normal;
                self.do_commit(msg, &mut effects);
                assert(effect_views(effects@) =~= Self::commit_effects(*old(self), old(self).input@));
            },
            InputMode::Branch => {
                let name = self.input.clone();
                self.input = String::new();
                self.input_mode = InputMode::Normal;
                self.do_create_branch(name, &mut effects);
                assert(effect_views(effects@) =~= Self::create_branch_effects(*old(self), old(self).input@));
            },
            InputMode::Command => {
                let line = self.input.clone();
                self.input = String::new();
                self.input_mode = InputMode::Normal;
                match &self.repo_path {
                    Some(repo) => {
                        let repo = repo.clone();
                        match self.runner.spawn(line.as_str()) {
                            Some(cmd) => {
                                push_effect(&mut effects, Effect::SpawnCommand { repo, line: cmd });
                                assert(effect_views(effects@) =~= seq![ev(EffectKind::SpawnCommand, seq![repo_of(*old(self)), trim(old(self).input@, CharClass::Whitespace)])]);
                            },
                            None => {
                                assert(effect_views(effects@) =~= Seq::<EffectView>::empty());
                            },
                        }
                    },
                    None => {
                        assert(effect_views(effects@) =~= Seq::<EffectView>::empty());
                    },
                }
            },
            _ => {
                assert(effect_views(effects@) =~= Seq::<EffectView>::empty());
            },
        }
        effects
    }
}

/// `n.saturating_sub(k)`.
pub open spec fn sat_dec_by(n: int, k: int) -> int {
    if n >= k {
        n - k
    } else {
        0
    }
}

/// `N` then `n` in the diff comes back to the difference one started from
/// (both wrap around the list of differences, and each step keeps the
/// position on a difference and scrolls it to four rows below the top);
/// with no differences both keys leave everything as it was.
pub proof fn law_next_then_prev_hunk(o: App, m: App, n: App)
    requires
        o.diff.hunks@.len() == 0 || o.diff.hunk_idx < o.diff.hunks@.len(),
        App::diff_next_post(o, m),
        App::diff_prev_post(m, n),
    ensures
        o.diff.hunks@.len() == 0 ==> m == o && n == o,
        o.diff.hunks@.len() > 0 ==> {
            &&& m.diff.hunk_idx < m.diff.hunks@.len()
            &&& m.diff.scroll == sat_dec_by(m.diff.hunks@[m.diff.hunk_idx as int] as int, 4)
            &&& n.diff.hunk_idx == o.diff.hunk_idx
            &&& n.diff.hunks == o.diff.hunks
            &&& n.diff.scroll == sat_dec_by(o.diff.hunks@[o.diff.hunk_idx as int] as int, 4)
            &&& n == (App { diff: DiffState { scroll: n.diff.scroll, ..o.diff }, ..o })
        },
{
    if o.diff.hunks@.len() > 0 {
        let len = o.diff.hunks@.len() as int;
        let i = o.diff.hunk_idx as int;
        assert(o.diff.hunks.len() == len);
        assert(m.diff.hunks == o.diff.hunks);
        if i + 1 < len {
            assert((i + 1) % len == i + 1) by (nonlinear_arith)
                requires
                    0 <= i + 1 < len,
            ;
            assert((i + 1 + len - 1) % len == i) by (nonlinear_arith)
                requires
                    0 <= i < len,
            ;
        } else {
            assert((i + 1) % len == 0) by (nonlinear_arith)
                requires
                    i + 1 == len,
                    len > 0,
            ;
            assert((0 + len - 1) % len == i) by (nonlinear_arith)
                requires
                    i == len - 1,
                    len > 0,
            ;
        }
    }
}

/// A change that is not staged (modified in the work tree, or untracked).
pub open spec fn not_staged() -> spec_fn(FileChange) -> bool {
    |f: FileChange| f.area != Area::Staged
}

/// The path of a change.
pub open spec fn path_of() -> spec_fn(FileChange) -> Seq<char> {
    |f: FileChange| f.path@
}

/// Stage-all takes every change that is not staged yet (modified and
/// untracked alike), keeping the list's order: its paths are the changes
/// with an area other than `Staged`, filtered in order, path by path.
pub proof fn law_stage_all_takes_every_unstaged(items: Seq<FileChange>)
    ensures
        unstaged_paths(items) == items.filter(not_staged()).map_values(path_of()),
    decreases items.len(),
{
    let pred = not_staged();
    reveal(Seq::filter);
    if items.len() > 0 {
        law_stage_all_takes_every_unstaged(items.drop_last());
        let sub = items.drop_last().filter(pred);
        if pred(items.last()) {
            assert(items.filter(pred) == sub.push(items.last()));
            assert(sub.push(items.last()).map_values(path_of()) =~= sub.map_values(path_of()).push(
                items.last().path@,
            ));
        } else {
            assert(items.filter(pred) == sub);
        }
        assert(unstaged_paths(items) =~= items.filter(pred).map_values(path_of()));
    } else {
        assert(unstaged_paths(items) =~= items.filter(pred).map_values(path_of()));
    }
}

/// The difference points of a diff are exactly its changed rows: every
/// entry is the position of a row that is not an equal line, the entries
/// rise strictly, and every modified, deleted or added row is among them.
pub proof fn law_hunks_are_changed_rows(rows: Seq<(DiffTag, Option<Seq<char>>, Option<Seq<char>>)>)
    requires
        rows.len() <= usize::MAX,
    ensures
        forall|k: int|
            0 <= k < hunk_positions(rows).len() ==> #[trigger] hunk_positions(rows)[k] < rows.len()
                && rows[hunk_positions(rows)[k] as int].0 != DiffTag::Equal,
        forall|k1: int, k2: int|
            0 <= k1 < k2 < hunk_positions(rows).len() ==> #[trigger] hunk_positions(rows)[k1]
                < #[trigger] hunk_positions(rows)[k2],
        forall|i: int| 0 <= i < rows.len() && (#[trigger] rows[i]).0 != DiffTag::Equal ==> hunk_positions(rows).contains(i as usize),
    decreases rows.len(),
{
    let h = hunk_positions(rows);
    if rows.len() > 0 {
        let r = rows.drop_last();
        law_hunks_are_changed_rows(r);
        let hr = hunk_positions(r);
        assert forall|i: int| 0 <= i < r.len() implies r[i] == rows[i] by {}
        if rows.last().0 != DiffTag::Equal {
            assert(h == hr.push((rows.len() - 1) as usize));
            assert forall|k: int| 0 <= k < h.len() implies #[trigger] h[k] < rows.len() && rows[h[k] as int].0 != DiffTag::Equal by {
                if k < hr.len() {
                    assert(h[k] == hr[k]);
                    assert(rows[hr[k] as int] == r[hr[k] as int]);
                }
            }
            assert forall|k1: int, k2: int| 0 <= k1 < k2 < h.len() implies #[trigger] h[k1] < #[trigger] h[k2] by {
                assert(h[k1] == hr[k1]);
                if k2 < hr.len() {
                    assert(h[k2] == hr[k2]);
                }
            }
            assert forall|i: int| 0 <= i < rows.len() && (#[trigger] rows[i]).0 != DiffTag::Equal implies h.contains(i as usize) by {
                if i < r.len() {
                    assert(r[i] == rows[i]);
                    let j = choose|j: int| 0 <= j < hr.len() && hr[j] == i as usize;
                    assert(h[j] == hr[j]);
                } else {
                    assert(h[h.len() - 1] == i as usize);
                }
            }
        } else {
            assert(h =~= hr);
            assert forall|k: int| 0 <= k < h.len() implies #[trigger] h[k] < rows.len() && rows[h[k] as int].0 != DiffTag::Equal by {
                assert(rows[hr[k] as int] == r[hr[k] as int]);
            }
            assert forall|i: int| 0 <= i < rows.len() && (#[trigger] rows[i]).0 != DiffTag::Equal implies h.contains(i as usize) by {
                assert(i < r.len());
                assert(r[i] == rows[i]);
            }
        }
    }
}

} // verus!
