use gitdiff_tui::watcher::{should_ignore, Debounce, WatchKind, DEBOUNCE_MS};

fn path(parts: &[&str]) -> Vec<String> {
    parts.iter().map(|s| s.to_string()).collect()
}

#[test]
fn access_and_unclassified_events_are_ignored() {
    let root = path(&["repo"]);
    assert!(should_ignore(WatchKind::Access, &root, &vec![path(&["repo", "src", "a.rs"])]));
    assert!(should_ignore(WatchKind::Other, &root, &vec![]));
    assert!(!should_ignore(WatchKind::Changed, &root, &vec![path(&["repo", "src", "a.rs"])]));
}

#[test]
fn events_inside_noise_directories_are_ignored() {
    let root = path(&["home", "u", "repo"]);
    assert!(should_ignore(WatchKind::Changed, &root, &vec![path(&["home", "u", "repo", ".git", "index"])]));
    assert!(should_ignore(
        WatchKind::Changed,
        &root,
        &vec![path(&["home", "u", "repo", "a"]), path(&["home", "u", "repo", "x", "target", "debug"])]
    ));
    assert!(should_ignore(WatchKind::Changed, &root, &vec![path(&["home", "u", "repo", "node_modules"])]));
    assert!(!should_ignore(WatchKind::Changed, &root, &vec![path(&["home", "u", "repo", "builder", "distant"])]));
    assert!(!should_ignore(WatchKind::Changed, &root, &vec![]));
}

#[test]
fn directories_above_the_repository_do_not_count() {
    let root = path(&["w", "build", "proj"]);
    assert!(!should_ignore(WatchKind::Changed, &root, &vec![path(&["w", "build", "proj", "src", "a.rs"])]));
    assert!(should_ignore(WatchKind::Changed, &root, &vec![path(&["w", "build", "proj", "dist", "a.js"])]));
    assert!(should_ignore(WatchKind::Changed, &root, &vec![path(&["elsewhere", "build", "x"])]));
}

#[test]
fn burst_of_events_gives_one_refresh() {
    assert_eq!(DEBOUNCE_MS, 900);
    let mut d = Debounce::new();
    assert!(!d.on_quiet());
    d.on_event(true);
    assert!(!d.on_quiet());
    d.on_event(false);
    d.on_event(true);
    d.on_event(false);
    assert!(d.on_quiet());
    assert!(!d.on_quiet());
}
