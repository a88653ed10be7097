use workspaceos::events::{
    index_actions, search_actions, watch_event_to_fs_event, FsEvent, IndexAction, WatchEventKind,
    WorkspaceEvent,
};
use workspaceos::ignore_rules::IgnoreMatcher;
use workspaceos::workspace::WorkspaceState;

fn describe(e: &Option<FsEvent>) -> String {
    match e {
        None => "none".to_string(),
        Some(FsEvent::Created(p)) => format!("created {}", p),
        Some(FsEvent::Modified(p)) => format!("modified {}", p),
        Some(FsEvent::Deleted(p)) => format!("deleted {}", p),
        Some(FsEvent::Renamed(a, b)) => format!("renamed {} {}", a, b),
    }
}

fn actions(v: &[IndexAction]) -> Vec<String> {
    v.iter()
        .map(|a| match a {
            IndexAction::Index(p) => format!("index {}", p),
            IndexAction::Delete(p) => format!("delete {}", p),
        })
        .collect()
}

fn paths(ps: &[&str]) -> Vec<String> {
    ps.iter().map(|p| p.to_string()).collect()
}

#[test]
fn notifications_become_relative_events() {
    let m = IgnoreMatcher::new("/w", None);
    let ev = |k, ps: &[&str]| {
        describe(&watch_event_to_fs_event(&m, "/w", k, &paths(ps), &vec![false; ps.len()]))
    };
    assert_eq!(ev(WatchEventKind::Create, &["/w/src/a.rs"]), "created src/a.rs");
    assert_eq!(ev(WatchEventKind::Modify, &["/w/b.ts"]), "modified b.ts");
    assert_eq!(ev(WatchEventKind::Any, &["/w/b.ts"]), "modified b.ts");
    assert_eq!(ev(WatchEventKind::Remove, &["/w/c.md"]), "deleted c.md");
    assert_eq!(ev(WatchEventKind::RenameBoth, &["/w/old.rs", "/w/new.rs"]), "renamed old.rs new.rs");
    assert_eq!(ev(WatchEventKind::RenameBoth, &["/w/only.rs"]), "modified only.rs");
    assert_eq!(ev(WatchEventKind::Other, &["/w/x"]), "none");
    assert_eq!(ev(WatchEventKind::Create, &["/elsewhere/x"]), "none");
    assert_eq!(
        ev(WatchEventKind::RenameBoth, &["/elsewhere/x", "/w/y"]),
        "renamed /elsewhere/x y"
    );
}

#[test]
fn ignored_paths_are_dropped_before_the_event_is_built() {
    let m = IgnoreMatcher::new("/w", Some("*.log\n".to_string()));
    let ps = paths(&["/w/.git/index", "/w/app.log", "/w/src/main.rs"]);
    let e = watch_event_to_fs_event(&m, "/w", WatchEventKind::Modify, &ps, &vec![false, false, false]);
    assert_eq!(describe(&e), "modified src/main.rs");
    let only_ignored = paths(&["/w/target/debug/x", "/w/node_modules/y/z.js"]);
    let e = watch_event_to_fs_event(&m, "/w", WatchEventKind::Create, &only_ignored, &vec![]);
    assert_eq!(describe(&e), "none");
}

#[test]
fn the_symbol_indexer_follows_its_own_workspace() {
    let created = WorkspaceEvent::FsUpdate { id: "ws1".to_string(), event: FsEvent::Created("a.rs".to_string()) };
    assert_eq!(actions(&index_actions("ws1", &created)), vec!["index a.rs"]);
    assert!(index_actions("ws2", &created).is_empty());
    let renamed = WorkspaceEvent::FsUpdate {
        id: "ws1".to_string(),
        event: FsEvent::Renamed("a.rs".to_string(), "b.rs".to_string()),
    };
    assert_eq!(actions(&index_actions("ws1", &renamed)), vec!["delete a.rs", "index b.rs"]);
    let deleted = WorkspaceEvent::FsUpdate { id: "ws1".to_string(), event: FsEvent::Deleted("c.rs".to_string()) };
    assert_eq!(actions(&index_actions("ws1", &deleted)), vec!["delete c.rs"]);
    let other = WorkspaceEvent::WorkspaceStateChanged {
        id: "ws1".to_string(),
        old_state: WorkspaceState::Ready,
        new_state: WorkspaceState::Active,
    };
    assert!(index_actions("ws1", &other).is_empty());
    assert!(search_actions("ws1", &other).is_empty());
}

#[test]
fn full_text_indexing_skips_internal_paths() {
    let ev = |e: FsEvent| WorkspaceEvent::FsUpdate { id: "w".to_string(), event: e };
    assert!(search_actions("w", &ev(FsEvent::Modified(".workspaceos/index.db".to_string()))).is_empty());
    assert!(search_actions("w", &ev(FsEvent::Created(".git/HEAD".to_string()))).is_empty());
    assert!(search_actions("w", &ev(FsEvent::Deleted(".gitignore".to_string()))).is_empty());
    assert_eq!(
        actions(&search_actions("w", &ev(FsEvent::Modified("src/x.rs".to_string())))),
        vec!["index src/x.rs"]
    );
    assert_eq!(
        actions(&search_actions("w", &ev(FsEvent::Renamed("a".to_string(), "b".to_string())))),
        vec!["delete a", "index b"]
    );
    assert!(search_actions(
        "w",
        &ev(FsEvent::Renamed("a".to_string(), ".git/b".to_string()))
    )
    .is_empty());
    // the symbol indexer still acts on internal paths
    assert_eq!(
        actions(&index_actions("w", &ev(FsEvent::Modified(".git/HEAD".to_string())))),
        vec!["index .git/HEAD"]
    );
}

#[test]
fn renames_drop_ignored_paths() {
    let m = IgnoreMatcher::new("/w", Some("*.tmp\n".to_string()));
    let ps = paths(&["/w/a.tmp", "/w/b.rs", "/w/c.rs"]);
    let e = watch_event_to_fs_event(&m, "/w", WatchEventKind::RenameBoth, &ps, &vec![false; 3]);
    assert_eq!(describe(&e), "renamed b.rs c.rs");
    let only = paths(&["/w/a.tmp", "/w/b.tmp"]);
    let e = watch_event_to_fs_event(&m, "/w", WatchEventKind::RenameBoth, &only, &vec![false; 2]);
    assert_eq!(describe(&e), "none");
}
