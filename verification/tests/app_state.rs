use gitdiff_tui::app::{App, CenterView, InputMode, LeftTab, Mode, Panel};
use gitdiff_tui::diff::DiffTag;
use gitdiff_tui::event::{Action, Effect, Key, KeyCode, Mouse, MouseKind};
use gitdiff_tui::git::types::{Area, BranchInfo, CommitFile, CommitInfo, DiffSides, DirEntry, FileChange, RecentProject};
use gitdiff_tui::recent::Recent;
use gitdiff_tui::ui::Rect;

fn app() -> App {
    App::new("git version 2.40.0".to_string(), Recent { path: "/tmp/r.json".to_string() }, Vec::new())
}

fn key(c: KeyCode) -> Action {
    Action::Key(Key { code: c, ctrl: false, release: false })
}

fn ch(c: char) -> Action {
    key(KeyCode::Char(c))
}

fn ctrl(c: char) -> Action {
    Action::Key(Key { code: KeyCode::Char(c), ctrl: true, release: false })
}

fn step(a: &mut App, action: Action) -> Vec<Effect> {
    assert!(a.can_update(&action));
    a.update(action)
}

fn change(path: &str, area: Area) -> FileChange {
    FileChange { path: path.to_string(), old_path: None, index_status: 'M', worktree_status: 'M', area }
}

fn opened() -> App {
    let mut a = app();
    let e = step(&mut a, Action::RepoOpened { path: "/r".to_string(), name: "r".to_string() });
    assert_eq!(e.len(), 7);
    a
}

#[test]
fn new_app_starts_on_welcome_screen() {
    let a = app();
    assert_eq!(a.mode, Mode::Welcome);
    assert!(a.repo_path.is_none());
    assert_eq!(a.focus, Panel::Left);
    assert_eq!(a.left_tab, LeftTab::Changes);
    assert_eq!(a.input_mode, InputMode::Normal);
    assert!(a.runner.visible);
    assert!(!a.watching);
}

#[test]
fn typing_a_path_asks_to_open_it() {
    let mut a = app();
    assert!(step(&mut a, ch('o')).is_empty());
    assert_eq!(a.input_mode, InputMode::Path);
    for c in "/repo".chars() {
        step(&mut a, ch(c));
    }
    step(&mut a, key(KeyCode::Backspace));
    step(&mut a, ch('x'));
    let e = step(&mut a, key(KeyCode::Enter));
    assert_eq!(e.len(), 1);
    assert!(matches!(&e[0], Effect::OpenRepo { path } if path == "/repx"));
    assert_eq!(a.input_mode, InputMode::Normal);
    assert_eq!(a.input, "");
}

#[test]
fn opening_a_repository_loads_everything() {
    let mut a = app();
    let e = step(&mut a, Action::RepoOpened { path: "/r".to_string(), name: "r".to_string() });
    assert_eq!(a.mode, Mode::Workspace);
    assert_eq!(a.repo_path.as_deref(), Some("/r"));
    assert_eq!(a.repo_name, "r");
    assert_eq!(a.status_msg.as_deref(), Some("已打开 /r"));
    assert!(a.watching);
    assert!(matches!(&e[0], Effect::RecordRecent { path, name } if path == "/r" && name == "r"));
    assert!(matches!(&e[1], Effect::StartWatcher { path } if path == "/r"));
    assert!(matches!(&e[2], Effect::LoadStatus { repo } if repo == "/r"));
    assert!(matches!(&e[3], Effect::LoadLog { repo, limit: 100 } if repo == "/r"));
    assert!(matches!(&e[4], Effect::LoadBranches { .. }));
    assert!(matches!(&e[5], Effect::LoadCurrentBranch { .. }));
    assert!(matches!(&e[6], Effect::ListDir { repo, path } if repo == "/r" && path.is_empty()));
}

#[test]
fn loaded_lists_keep_selection_in_range() {
    let mut a = opened();
    a.changes.selected = 5;
    step(&mut a, Action::StatusLoaded(vec![change("a", Area::Unstaged), change("b", Area::Staged)]));
    assert_eq!(a.changes.selected, 1);
    step(&mut a, Action::StatusLoaded(Vec::new()));
    assert_eq!(a.changes.selected, 0);
    a.history.selected = 3;
    let c = CommitInfo { hash: "h".into(), subject: "s".into(), author: "a".into(), date: "d".into() };
    step(&mut a, Action::LogLoaded(vec![c]));
    assert_eq!(a.history.selected, 0);
}

#[test]
fn branches_loaded_find_current() {
    let mut a = opened();
    let b = |n: &str, cur: bool| BranchInfo { name: n.to_string(), is_current: cur };
    step(&mut a, Action::BranchesLoaded(vec![b("main", false), b("dev", true)]));
    assert_eq!(a.branches.current, "dev");
    step(&mut a, Action::BranchesLoaded(vec![b("main", false)]));
    assert_eq!(a.branches.current, "");
    step(&mut a, Action::CurrentBranchLoaded("main".to_string()));
    assert_eq!(a.current_branch, "main");
}

#[test]
fn staging_keys_ask_git() {
    let mut a = opened();
    step(&mut a, Action::StatusLoaded(vec![change("a.rs", Area::Unstaged), change("b.rs", Area::Staged)]));
    let e = step(&mut a, ch(' '));
    assert!(matches!(&e[0], Effect::Stage { repo, paths } if repo == "/r" && paths == &vec!["a.rs".to_string()]));
    step(&mut a, ch('j'));
    assert_eq!(a.changes.selected, 1);
    let e = step(&mut a, ch(' '));
    assert!(matches!(&e[0], Effect::Unstage { paths, .. } if paths == &vec!["b.rs".to_string()]));
    let e = step(&mut a, ch('a'));
    assert!(matches!(&e[0], Effect::Stage { paths, .. } if paths == &vec!["a.rs".to_string()]));
}

#[test]
fn commit_message_is_committed_unless_blank() {
    let mut a = opened();
    step(&mut a, ch('c'));
    assert_eq!(a.input_mode, InputMode::Commit);
    for c in "fix".chars() {
        step(&mut a, ch(c));
    }
    let e = step(&mut a, key(KeyCode::Enter));
    assert!(matches!(&e[0], Effect::Commit { repo, message } if repo == "/r" && message == "fix"));
    step(&mut a, ch('c'));
    step(&mut a, ch(' '));
    assert!(step(&mut a, key(KeyCode::Enter)).is_empty());
}

#[test]
fn finished_operation_reloads_and_reports() {
    let mut a = opened();
    let e = step(&mut a, Action::OpFinished("已暂存".to_string()));
    assert_eq!(a.status_msg.as_deref(), Some("已暂存"));
    assert_eq!(e.len(), 4);
    step(&mut a, Action::Error("boom".to_string()));
    assert_eq!(a.error_msg.as_deref(), Some("boom"));
    step(&mut a, ch('j'));
    assert!(a.error_msg.is_none());
    let e = step(&mut a, Action::RepoChanged);
    assert_eq!(e.len(), 1);
    assert!(matches!(&e[0], Effect::LoadStatus { .. }));
}

#[test]
fn diff_arrives_and_navigates() {
    let mut a = opened();
    step(&mut a, Action::StatusLoaded(vec![change("a.rs", Area::Unstaged)]));
    let e = step(&mut a, key(KeyCode::Enter));
    assert!(matches!(&e[0], Effect::LoadDiff { path, staged: false, untracked: false, .. } if path == "a.rs"));
    assert!(a.diff.loading);
    assert_eq!(a.focus, Panel::Center);
    let sides = DiffSides {
        left: "1\n2\n3\n".to_string(),
        right: "1\nX\n3\n4\n".to_string(),
        left_label: "Index".to_string(),
        right_label: "工作区".to_string(),
        binary: false,
    };
    step(
        &mut a,
        Action::DiffLoaded { path: "a.rs".to_string(), staged: false, untracked: false, sides, unified: String::new() },
    );
    assert!(!a.diff.loading);
    assert_eq!(a.diff.rows.len(), 4);
    assert_eq!(a.diff.rows[1].tag, DiffTag::Mod);
    assert_eq!(a.diff.hunks, vec![1, 3]);
    step(&mut a, ch('N'));
    assert_eq!(a.diff.hunk_idx, 1);
    step(&mut a, ch('N'));
    assert_eq!(a.diff.hunk_idx, 0);
    step(&mut a, ch('n'));
    assert_eq!(a.diff.hunk_idx, 1);
    step(&mut a, ch('N'));
    step(&mut a, ch('n'));
    assert_eq!(a.diff.hunk_idx, 1);
    step(&mut a, ch('v'));
    assert!(!a.diff.side_by_side);
}

#[test]
fn editing_and_saving_a_file() {
    let mut a = opened();
    step(&mut a, Action::FileLoaded { path: "f.txt".to_string(), content: "ab\ncd".to_string() });
    assert_eq!(a.input_mode, InputMode::Edit);
    assert_eq!(a.center_view, CenterView::Editor);
    assert_eq!(a.editor.lines, vec!["ab".to_string(), "cd".to_string()]);
    assert!(step(&mut a, ctrl('s')).is_empty());
    step(&mut a, key(KeyCode::Right));
    step(&mut a, ch('中'));
    assert_eq!(a.editor.lines[0], "a中b");
    assert_eq!(a.editor.cursor_col, 4);
    step(&mut a, key(KeyCode::Enter));
    assert_eq!(a.editor.lines, vec!["a中".to_string(), "b".to_string(), "cd".to_string()]);
    assert_eq!((a.editor.cursor_line, a.editor.cursor_col), (1, 0));
    step(&mut a, key(KeyCode::Backspace));
    assert_eq!(a.editor.lines, vec!["a中b".to_string(), "cd".to_string()]);
    assert_eq!(a.editor.cursor_col, 4);
    let e = step(&mut a, ctrl('s'));
    assert!(matches!(&e[0], Effect::WriteFile { repo, path, content } if repo == "/r" && path == "f.txt" && content == "a中b\ncd"));
    let e = step(&mut a, Action::FileSaved);
    assert!(!a.editor.dirty);
    assert_eq!(a.status_msg.as_deref(), Some("已保存"));
    assert_eq!(e.len(), 1);
    step(&mut a, key(KeyCode::Esc));
    assert_eq!(a.input_mode, InputMode::Normal);
}

#[test]
fn history_selection_loads_commit_files() {
    let mut a = opened();
    let c = CommitInfo { hash: "abc".into(), subject: "s".into(), author: "a".into(), date: "d".into() };
    step(&mut a, Action::LogLoaded(vec![c]));
    step(&mut a, ch('3'));
    assert_eq!(a.focus, Panel::History);
    let e = step(&mut a, key(KeyCode::Enter));
    assert!(matches!(&e[0], Effect::LoadCommitFiles { hash, .. } if hash == "abc"));
    let f = CommitFile { path: "x.rs".to_string(), status: "M".to_string() };
    step(&mut a, Action::CommitFilesLoaded { hash: "other".to_string(), files: vec![f.clone()] });
    assert!(a.history.files.is_empty());
    step(&mut a, Action::CommitFilesLoaded { hash: "abc".to_string(), files: vec![f] });
    assert_eq!(a.history.files.len(), 1);
    step(&mut a, Action::HistoryDiffLoaded { path: "x.rs".to_string(), content: "+a".to_string() });
    assert_eq!(a.center_view, CenterView::HistoryDiff);
    assert_eq!(a.focus, Panel::Center);
}

#[test]
fn file_tree_lists_root_and_opens_directories() {
    let mut a = opened();
    let d = |name: &str, path: &str, is_dir: bool| DirEntry { name: name.into(), path: path.into(), is_dir };
    step(&mut a, Action::DirLoaded { path: String::new(), entries: vec![d("src", "src", true), d("a.txt", "a.txt", false)] });
    step(&mut a, ch(']'));
    assert_eq!(a.left_tab, LeftTab::Files);
    assert_eq!(a.filetree.flat().len(), 2);
    let e = step(&mut a, key(KeyCode::Enter));
    assert!(matches!(&e[0], Effect::ListDir { path, .. } if path == "src"));
    step(&mut a, Action::DirLoaded { path: "src".to_string(), entries: vec![d("main.rs", "src/main.rs", false)] });
    let rows = a.filetree.flat();
    assert_eq!(rows.len(), 3);
    assert_eq!(rows[1].path, "src/main.rs");
    assert_eq!(rows[1].depth, 1);
    step(&mut a, ch('j'));
    let e = step(&mut a, ch('e'));
    assert!(matches!(&e[0], Effect::ReadFile { path, .. } if path == "src/main.rs"));
    step(&mut a, ch('k'));
    step(&mut a, ch('h'));
    assert_eq!(a.filetree.flat().len(), 2);
}

#[test]
fn mouse_clicks_and_wheel() {
    let mut a = opened();
    step(&mut a, Action::StatusLoaded(vec![change("a", Area::Unstaged), change("b", Area::Unstaged), change("c", Area::Unstaged)]));
    a.rects.left = Rect::new(0, 0, 30, 20);
    a.rects.left_list = Rect::new(1, 2, 28, 10);
    a.rects.center = Rect::new(30, 0, 40, 20);
    a.focus = Panel::Center;
    let click = |x, y| Action::Mouse(Mouse { kind: MouseKind::LeftDown, column: x, row: y });
    step(&mut a, click(5, 4));
    assert_eq!(a.focus, Panel::Left);
    assert_eq!(a.changes.selected, 2);
    step(&mut a, click(5, 9));
    assert_eq!(a.changes.selected, 2);
    step(&mut a, Action::Mouse(Mouse { kind: MouseKind::ScrollUp, column: 0, row: 0 }));
    assert_eq!(a.changes.selected, 1);
    step(&mut a, click(40, 5));
    assert_eq!(a.focus, Panel::Center);
    step(&mut a, Action::Mouse(Mouse { kind: MouseKind::ScrollDown, column: 0, row: 0 }));
    assert_eq!(a.diff.scroll, 1);
    a.help_open = true;
    step(&mut a, click(5, 4));
    assert!(!a.help_open);
    assert_eq!(a.changes.selected, 1);
}

#[test]
fn welcome_screen_recent_list() {
    let list = vec![
        RecentProject { path: "/a".into(), name: "a".into(), last_opened_at: 1 },
        RecentProject { path: "/b".into(), name: "b".into(), last_opened_at: 2 },
    ];
    let mut a = App::new("git".to_string(), Recent { path: "/tmp/r.json".to_string() }, list);
    step(&mut a, ch('j'));
    assert_eq!(a.recent_selected, 1);
    let e = step(&mut a, key(KeyCode::Enter));
    assert!(matches!(&e[0], Effect::OpenRepo { path } if path == "/b"));
    let e = step(&mut a, ch('d'));
    assert!(matches!(&e[0], Effect::ForgetRecent { path } if path == "/b"));
    step(&mut a, Action::RecentLoaded(vec![RecentProject { path: "/a".into(), name: "a".into(), last_opened_at: 1 }]));
    assert_eq!(a.recent_selected, 0);
    step(&mut a, ch('q'));
    assert!(a.should_quit);
}

#[test]
fn terminal_commands_and_ticks() {
    let mut a = opened();
    step(&mut a, ch('4'));
    step(&mut a, key(KeyCode::Enter));
    assert_eq!(a.input_mode, InputMode::Command);
    for c in "ls".chars() {
        step(&mut a, ch(c));
    }
    let e = step(&mut a, key(KeyCode::Enter));
    assert!(matches!(&e[0], Effect::SpawnCommand { repo, line } if repo == "/r" && line == "ls"));
    assert!(step(&mut a, Action::Tick).is_empty());
    step(&mut a, Action::CmdStarted);
    let e = step(&mut a, Action::Tick);
    assert!(matches!(&e[0], Effect::PollCommand));
    step(&mut a, Action::CmdOutput { data: "out".to_string() });
    step(&mut a, Action::CmdExited(Some(0)));
    assert!(!a.runner.running);
    assert_eq!(a.runner.output.last().map(|s| s.as_str()), Some("[退出: 0]"));
}

#[test]
fn closing_returns_to_welcome() {
    let mut a = opened();
    let e = step(&mut a, ch('x'));
    assert!(matches!(&e[0], Effect::StopWatcher));
    assert_eq!(a.mode, Mode::Welcome);
    assert!(a.repo_path.is_none());
    assert!(!a.watching);
}

#[test]
fn refused_actions_are_reported_beforehand() {
    let mut a = app();
    a.mode = Mode::Workspace;
    assert!(!a.can_update(&ch('P')));
    assert!(!a.can_update(&ch('F')));
    assert!(a.can_update(&ch('q')));
    a.input_mode = InputMode::Edit;
    a.editor.lines = vec!["中".to_string()];
    a.editor.cursor_col = 1;
    assert!(!a.can_update(&ch('x')));
    a.editor.cursor_col = 3;
    assert!(a.can_update(&ch('x')));
}

#[test]
fn status_bar_hints_follow_focus() {
    let mut a = opened();
    assert_eq!(a.hint(), "space 暂存/取消  Enter 差异  a 全部  c 提交  u 取消暂存");
    step(&mut a, ch('4'));
    assert_eq!(a.hint(), "i 输入命令  Ctrl+C 中断  t 收起");
}

#[test]
fn lower_n_goes_to_previous_difference() {
    let mut a = opened();
    a.focus = Panel::Center;
    a.center_view = CenterView::Diff;
    a.diff.hunks = vec![2, 10, 30];
    a.diff.hunk_idx = 0;
    step(&mut a, ch('n'));
    assert_eq!(a.diff.hunk_idx, 2);
    assert_eq!(a.diff.scroll, 26);
    step(&mut a, ch('N'));
    assert_eq!(a.diff.hunk_idx, 0);
    assert_eq!(a.diff.scroll, 0);
}

#[test]
fn arrow_keys_recall_commands_into_the_input_line() {
    let mut a = opened();
    a.input_mode = InputMode::Command;
    a.runner.history = vec!["git status".to_string()];
    step(&mut a, key(KeyCode::Up));
    assert_eq!(a.input, "git status");
    assert_eq!(a.runner.hist_idx, Some(0));
    assert_eq!(a.input_mode, InputMode::Command);
    step(&mut a, key(KeyCode::Down));
    assert_eq!(a.input, "");
    assert!(a.runner.hist_idx.is_none());
    step(&mut a, ch('x'));
    step(&mut a, key(KeyCode::Down));
    assert_eq!(a.input, "x");
    step(&mut a, key(KeyCode::Up));
    let e = step(&mut a, key(KeyCode::Enter));
    assert!(matches!(&e[0], Effect::SpawnCommand { line, .. } if line == "git status"));
}

#[test]
fn enter_splits_line_and_backspace_joins_it() {
    let mut a = opened();
    step(&mut a, Action::FileLoaded { path: "f".to_string(), content: "héllo\nend".to_string() });
    step(&mut a, key(KeyCode::Right));
    step(&mut a, key(KeyCode::Right));
    assert_eq!(a.editor.cursor_col, 3);
    step(&mut a, key(KeyCode::Enter));
    assert_eq!(a.editor.lines.join("\n"), "hé\nllo\nend");
    assert_eq!((a.editor.cursor_line, a.editor.cursor_col), (1, 0));
    assert!(a.editor.dirty);
    step(&mut a, key(KeyCode::Backspace));
    assert_eq!(a.editor.lines, vec!["héllo".to_string(), "end".to_string()]);
    assert_eq!((a.editor.cursor_line, a.editor.cursor_col), (0, 3));
}

#[test]
fn difference_keys_do_nothing_without_differences() {
    let mut a = opened();
    a.focus = Panel::Center;
    a.diff.scroll = 7;
    step(&mut a, ch('n'));
    step(&mut a, ch('N'));
    assert_eq!((a.diff.hunk_idx, a.diff.scroll), (0, 7));
}
