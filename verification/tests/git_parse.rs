use gitdiff_tui::git::listing::{decode_output, file_text, is_binary, is_binary_bytes, is_noise_dir, list_dir_entries};
use gitdiff_tui::git::parse::{parse_branches, parse_log, parse_name_status, parse_status, status_text_parsable};
use gitdiff_tui::git::types::Area;
use gitdiff_tui::git::{
    blob_answer, current_branch_answer, diff_plan, diff_sides, is_repo_answer, patch_answer, toplevel_answer,
    DiffSource, GitCommand, GitOutput,
};

fn out(stdout: &str, stderr: &str, code: Option<i32>) -> GitOutput {
    GitOutput { stdout: stdout.to_string(), stderr: stderr.to_string(), code }
}

#[test]
fn status_lines_become_changes() {
    let text = " M src/a.rs\nR  old.rs -> new.rs\n?? notes.txt\nMM both.rs\n";
    assert!(status_text_parsable(text));
    let v = parse_status(text);
    assert_eq!(v.len(), 5);
    assert_eq!(v[0].path, "src/a.rs");
    assert_eq!(v[0].area, Area::Unstaged);
    assert_eq!(v[0].index_status, ' ');
    assert_eq!(v[0].worktree_status, 'M');
    assert_eq!(v[1].path, "new.rs");
    assert_eq!(v[1].old_path.as_deref(), Some("old.rs"));
    assert_eq!(v[1].area, Area::Staged);
    assert_eq!(v[2].path, "notes.txt");
    assert_eq!(v[2].area, Area::Untracked);
    assert_eq!(v[2].index_status, '?');
    assert_eq!(v[3].path, "both.rs");
    assert_eq!(v[3].area, Area::Staged);
    assert_eq!(v[4].path, "both.rs");
    assert_eq!(v[4].area, Area::Unstaged);
}

#[test]
fn status_skips_short_lines_and_unquotes() {
    let v = parse_status("M\n\n?? \"with space.txt\"\r\n");
    assert_eq!(v.len(), 1);
    assert_eq!(v[0].path, "with space.txt");
    assert_eq!(v[0].area, Area::Untracked);
}

#[test]
fn status_of_empty_output_is_empty() {
    assert!(parse_status("").is_empty());
}

#[test]
fn log_lines_split_on_unit_separator() {
    let text = "abc123\u{1f}Fix bug\u{1f}Ann\u{1f}2024-01-02\nbad line\ndef456\u{1f}Add\u{1f}Bob\u{1f}2024-01-03\u{1f}extra";
    let v = parse_log(text);
    assert_eq!(v.len(), 2);
    assert_eq!(v[0].hash, "abc123");
    assert_eq!(v[0].subject, "Fix bug");
    assert_eq!(v[0].author, "Ann");
    assert_eq!(v[0].date, "2024-01-02");
    assert_eq!(v[1].hash, "def456");
    assert_eq!(v[1].date, "2024-01-03");
}

#[test]
fn branches_mark_the_current_one() {
    let v = parse_branches("  main\n* feature/x\n\n   dev  \n");
    assert_eq!(v.len(), 3);
    assert_eq!(v[0].name, "main");
    assert!(!v[0].is_current);
    assert_eq!(v[1].name, "feature/x");
    assert!(v[1].is_current);
    assert_eq!(v[2].name, "dev");
    assert!(!v[2].is_current);
}

#[test]
fn name_status_takes_letter_and_last_path() {
    let v = parse_name_status("\nM\tsrc/a.rs\nR100\told.rs\tnew.rs\n1\tnot-a-status\nA\t\n");
    assert_eq!(v.len(), 2);
    assert_eq!(v[0].status, "M");
    assert_eq!(v[0].path, "src/a.rs");
    assert_eq!(v[1].status, "R");
    assert_eq!(v[1].path, "new.rs");
}

#[test]
fn output_message_joins_trimmed_streams() {
    assert_eq!(out("  hello \n", "", Some(0)).message(), "hello");
    assert_eq!(out("a\n", "  warn\n", Some(1)).message(), "a\nwarn");
    assert_eq!(out("   ", " oops ", None).message(), "oops");
    assert_eq!(out("", "", Some(0)).message(), "");
}

#[test]
fn output_ok_only_on_exit_zero() {
    assert!(out("", "", Some(0)).ok());
    assert!(!out("", "", Some(1)).ok());
    assert!(!out("", "", None).ok());
}

#[test]
fn answers_read_git_output() {
    assert!(is_repo_answer(&out("true\n", "", Some(0))));
    assert!(!is_repo_answer(&out("false\n", "", Some(0))));
    assert!(!is_repo_answer(&out("true\n", "", Some(128))));
    assert_eq!(toplevel_answer(&out("/home/u/repo\n", "", Some(0))).as_deref(), Some("/home/u/repo"));
    assert!(toplevel_answer(&out("", "fatal", Some(128))).is_none());
    assert_eq!(current_branch_answer(&out(" main \n", "", Some(0))), "main");
    assert_eq!(current_branch_answer(&out("main", "", Some(1))), "");
    assert_eq!(blob_answer(&out("a\nb\n", "", Some(0))), "a\nb\n");
    assert_eq!(blob_answer(&out("a", "", Some(128))), "");
    assert_eq!(patch_answer(&out("", "no such path", Some(128))), "no such path");
    assert_eq!(patch_answer(&out("diff", "warn", Some(0))), "diff");
}

#[test]
fn command_argument_lists() {
    assert_eq!(GitCommand::Status.args(), vec!["status", "--porcelain=v1", "-uall"]);
    assert_eq!(
        GitCommand::Log { limit: 100 }.args(),
        vec!["log", "--pretty=format:%H%x1f%s%x1f%an%x1f%ad", "--date=short", "-100"]
    );
    assert_eq!(
        GitCommand::Stage { paths: vec!["a".to_string(), "b c".to_string()] }.args(),
        vec!["add", "--", "a", "b c"]
    );
    assert_eq!(GitCommand::Unstage { paths: vec!["a".to_string()] }.args(), vec!["reset", "HEAD", "--", "a"]);
    assert_eq!(GitCommand::Commit { message: "msg".to_string() }.args(), vec!["commit", "-m", "msg"]);
    assert_eq!(GitCommand::Pull.args(), vec!["pull", "--rebase=false"]);
    assert_eq!(GitCommand::CreateBranch { name: "f".to_string() }.args(), vec!["checkout", "-b", "f"]);
    assert_eq!(
        GitCommand::UnifiedDiff { path: "x".to_string(), staged: true }.args(),
        vec!["diff", "--cached", "--", "x"]
    );
    assert_eq!(
        GitCommand::CommitFiles { hash: "h".to_string() }.args(),
        vec!["show", "--name-status", "--pretty=format:", "h"]
    );
    assert_eq!(GitCommand::CurrentBranch.args(), vec!["rev-parse", "--abbrev-ref", "HEAD"]);
}

#[test]
fn diff_plan_picks_sources_and_labels() {
    let p = diff_plan("a.rs", true, false);
    assert!(matches!(&p.left, DiffSource::Blob { spec } if spec == "HEAD:a.rs"));
    assert!(matches!(&p.right, DiffSource::Blob { spec } if spec == ":a.rs"));
    assert_eq!((p.left_label.as_str(), p.right_label.as_str()), ("HEAD", "Index"));
    let p = diff_plan("n.txt", false, true);
    assert!(matches!(&p.left, DiffSource::Empty));
    assert!(matches!(&p.right, DiffSource::Worktree { path } if path == "n.txt"));
    assert_eq!((p.left_label.as_str(), p.right_label.as_str()), ("空", "工作区"));
    let p = diff_plan("m.rs", false, false);
    assert!(matches!(&p.left, DiffSource::Blob { spec } if spec == ":m.rs"));
    assert_eq!((p.left_label.as_str(), p.right_label.as_str()), ("Index", "工作区"));
}

#[test]
fn binary_detection_and_sides() {
    assert!(is_binary("a\0b"));
    assert!(!is_binary("plain text"));
    assert!(is_binary_bytes(&[0x41, 0x00]));
    assert!(!is_binary_bytes(&[0x41, 0x42]));
    let s = diff_sides("x".to_string(), "y\0".to_string(), "L".to_string(), "R".to_string());
    assert!(s.binary);
    assert_eq!(s.left, "x");
    let s = diff_sides("x".to_string(), "y".to_string(), "L".to_string(), "R".to_string());
    assert!(!s.binary);
}

#[test]
fn file_text_refuses_binary_and_decodes_lossily() {
    assert_eq!(file_text(b"hello").unwrap(), "hello");
    assert_eq!(file_text(&[0x61, 0xff, 0x62]).unwrap(), "a\u{fffd}b");
    assert_eq!(file_text(&[0x61, 0x00]).unwrap_err(), "二进制文件，拒绝编辑");
}

#[test]
fn noise_directories() {
    for n in [".git", "node_modules", "target", "dist", "build"] {
        assert!(is_noise_dir(n));
    }
    assert!(!is_noise_dir("src"));
    assert!(!is_noise_dir(".github"));
}

#[test]
fn listing_drops_noise_and_sorts_dirs_first_case_insensitively() {
    let raw = vec![
        ("b.txt".to_string(), false),
        ("Zeta".to_string(), true),
        ("target".to_string(), true),
        ("A.md".to_string(), false),
        ("alpha".to_string(), true),
    ];
    let v = list_dir_entries("sub", &raw);
    let names: Vec<&str> = v.iter().map(|e| e.name.as_str()).collect();
    assert_eq!(names, vec!["alpha", "Zeta", "A.md", "b.txt"]);
    assert_eq!(v[0].path, "sub/alpha");
    assert!(v[0].is_dir);
    let top = list_dir_entries("", &vec![("x".to_string(), false)]);
    assert_eq!(top[0].path, "x");
}

#[test]
fn output_bytes_decode_lossily() {
    assert_eq!(decode_output(b"ok\n"), "ok\n");
    assert_eq!(decode_output(&[0x61, 0xc3]), "a\u{fffd}");
}

#[test]
fn status_of_concatenated_lines_is_concatenated() {
    let a = "A  x.rs\nMM y.rs\n";
    let b = "?? z.txt\n D w.rs";
    let whole = parse_status(&format!("{a}{b}"));
    let parts: Vec<String> = parse_status(a).into_iter().chain(parse_status(b)).map(|f| f.path).collect();
    assert_eq!(whole.into_iter().map(|f| f.path).collect::<Vec<_>>(), parts);
}
