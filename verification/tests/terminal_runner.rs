use gitdiff_tui::terminal::CmdRunner;

#[test]
fn new_runner_greets() {
    let r = CmdRunner::new();
    assert!(r.visible);
    assert_eq!(r.height_percent, 25);
    assert_eq!(r.output, vec!["输入命令并回车执行（Ctrl+C 中断，Esc 收起）".to_string()]);
    assert!(!r.running);
}

#[test]
fn spawn_echoes_and_records_trimmed_command() {
    let mut r = CmdRunner::new();
    assert!(r.spawn("   ").is_none());
    assert_eq!(r.output.len(), 1);
    let cmd = r.spawn("  git status \n");
    assert_eq!(cmd.as_deref(), Some("git status"));
    assert_eq!(r.output.last().map(|s| s.as_str()), Some("$ git status"));
    assert_eq!(r.history, vec!["git status".to_string()]);
    assert!(r.hist_idx.is_none());
}

#[test]
fn output_splits_lines_and_keeps_last_two_thousand() {
    let mut r = CmdRunner::new();
    r.push_output("a\r\nb\nc".to_string());
    assert_eq!(&r.output[1..], &["a".to_string(), "b".to_string(), "c".to_string()]);
    for i in 0..2100 {
        r.push_output(format!("line {i}"));
    }
    assert_eq!(r.output.len(), 2000);
    assert_eq!(r.output.last().map(|s| s.as_str()), Some("line 2099"));
    assert_eq!(r.output[0], "line 100");
}

#[test]
fn exit_and_failures_are_reported() {
    let mut r = CmdRunner::new();
    r.started();
    assert!(r.running);
    r.exited(Some(3));
    assert!(!r.running);
    assert_eq!(r.output.last().map(|s| s.as_str()), Some("[退出: 3]"));
    r.exited(None);
    assert_eq!(r.output.last().map(|s| s.as_str()), Some("[退出: signal]"));
    r.start_failed("no shell");
    assert_eq!(r.output.last().map(|s| s.as_str()), Some("[启动失败] no shell"));
    r.started();
    r.interrupt();
    assert!(!r.running);
    assert_eq!(r.output.last().map(|s| s.as_str()), Some("[已中断]"));
}

#[test]
fn history_walks_up_and_down() {
    let mut r = CmdRunner::new();
    r.spawn("one");
    r.spawn("two");
    r.spawn("three");
    r.hist_up();
    assert_eq!(r.input, "three");
    r.hist_up();
    assert_eq!(r.input, "two");
    r.hist_up();
    r.hist_up();
    assert_eq!(r.input, "one");
    assert_eq!(r.hist_idx, Some(0));
    r.hist_down();
    assert_eq!(r.input, "two");
    r.hist_down();
    r.hist_down();
    assert_eq!(r.input, "");
    assert!(r.hist_idx.is_none());
}
