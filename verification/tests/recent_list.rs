use gitdiff_tui::git::types::RecentProject;
use gitdiff_tui::recent::{join, Recent, MAX_RECENT};

fn entry(path: &str, at: i64) -> RecentProject {
    RecentProject { path: path.to_string(), name: path.to_string(), last_opened_at: at }
}

fn recent() -> Recent {
    Recent { path: "/tmp/recent-projects.json".to_string() }
}

#[test]
fn add_puts_new_entry_first_without_duplicates() {
    let list = vec![entry("/a", 1), entry("/b", 2), entry("/c", 3)];
    let out = recent().add(list, "/b".to_string(), "b".to_string(), 99);
    let paths: Vec<&str> = out.iter().map(|p| p.path.as_str()).collect();
    assert_eq!(paths, vec!["/b", "/a", "/c"]);
    assert_eq!(out[0].name, "b");
    assert_eq!(out[0].last_opened_at, 99);
}

#[test]
fn add_keeps_at_most_twenty() {
    let list: Vec<RecentProject> = (0..25).map(|i| entry(&format!("/p{i}"), i)).collect();
    let out = recent().add(list, "/new".to_string(), "new".to_string(), 100);
    assert_eq!(out.len(), MAX_RECENT);
    assert_eq!(out.len(), 20);
    assert_eq!(out[0].path, "/new");
    assert_eq!(out[19].path, "/p18");
}

#[test]
fn remove_drops_every_entry_of_path() {
    let list = vec![entry("/a", 1), entry("/b", 2), entry("/a", 3)];
    let out = recent().remove(list, "/a");
    assert_eq!(out.len(), 1);
    assert_eq!(out[0].path, "/b");
}

#[test]
fn remove_undoes_add_of_new_path() {
    let list = vec![entry("/a", 1), entry("/b", 2)];
    let added = recent().add(list, "/z".to_string(), "z".to_string(), 5);
    let back = recent().remove(added, "/z");
    let paths: Vec<&str> = back.iter().map(|p| p.path.as_str()).collect();
    assert_eq!(paths, vec!["/a", "/b"]);
}

#[test]
fn store_path_is_in_data_dir() {
    let r = Recent::new();
    assert!(r.path.ends_with("gitdiff-tui/recent-projects.json"));
}

#[test]
fn join_paths() {
    assert_eq!(join("", "x"), "x");
    assert_eq!(join("/data/", "x"), "/data/x");
    assert_eq!(join("/data", "x"), "/data/x");
}

#[test]
fn store_path_inside_given_data_dir() {
    assert_eq!(Recent::in_data_dir(Some("/data".to_string())).path, "/data/gitdiff-tui/recent-projects.json");
    assert_eq!(Recent::in_data_dir(Some("/data/".to_string())).path, "/data/gitdiff-tui/recent-projects.json");
    assert_eq!(Recent::in_data_dir(None).path, "./gitdiff-tui/recent-projects.json");
}

#[test]
fn second_remove_changes_nothing() {
    let list = vec![entry("/a", 1), entry("/b", 2), entry("/a", 3), entry("/c", 4)];
    let once = recent().remove(list, "/a");
    let twice = recent().remove(once.clone(), "/a");
    let p = |v: &Vec<RecentProject>| v.iter().map(|e| e.path.clone()).collect::<Vec<_>>();
    assert_eq!(p(&once), vec!["/b", "/c"]);
    assert_eq!(p(&twice), p(&once));
}
