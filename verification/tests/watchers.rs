//! Watching a project for changes.

use beads_backend::dolt_watcher::{
    query_hash, DoltWatcher, HashReply, HashRow, PollAction, PollEvent, TableHashes, HASH_QUERY,
    POLL_INTERVAL_SECS,
};
use beads_backend::jsonl_watcher::{
    choose_watch_target, is_relevant, ChangeKind, JsonlWatcher, WatchTarget, WatcherAction,
    WatcherInput,
};
use beads_backend::path::PathParts;
use beads_backend::watch::{FileChangeEvent, WatchParams};

fn path(names: &[&str]) -> PathParts {
    PathParts { components: names.iter().map(|n| n.as_bytes().to_vec()).collect() }
}

fn sent(change_type: &str) -> PollAction {
    PollAction::Send(FileChangeEvent::new("/p", change_type))
}

fn hash(text: &str) -> PollEvent {
    hashes(text, None, None)
}

fn hashes(issues: &str, comments: Option<&str>, dependencies: Option<&str>) -> PollEvent {
    PollEvent::Hash(Some(TableHashes {
        issues: issues.to_string(),
        comments: comments.map(|h| h.to_string()),
        dependencies: dependencies.map(|h| h.to_string()),
    }))
}

fn waited() -> PollEvent {
    PollEvent::Waited { closed: false }
}

#[test]
fn events_and_parameters_are_plain_values() {
    let event = FileChangeEvent::new("/test/path", "modified");
    assert_eq!(event.path, "/test/path");
    assert_eq!(event.change_type, "modified");
    let params = WatchParams { path: "/test/project".to_string() };
    assert_eq!(params.path, "/test/project");
}

// ---- Dolt ------------------------------------------------------------------

#[test]
fn test_dolt_watch_emits_connected_event_immediately() {
    let watcher = DoltWatcher::begin("/tmp/project".to_string());
    match watcher.action() {
        PollAction::Send(event) => {
            assert_eq!(event.change_type, "connected");
            assert_eq!(event.path, "/tmp/project");
        }
        other => panic!("expected an event, got {other:?}"),
    }
}

#[test]
fn test_dolt_watch_stream_ends_when_receiver_dropped() {
    // The client goes while the server has never answered.
    let mut watcher = DoltWatcher::begin("/p".to_string());
    assert_eq!(watcher.step(PollEvent::Delivered), PollAction::Query);
    assert_eq!(watcher.step(PollEvent::Hash(None)), PollAction::Wait { secs: 5 });
    assert_eq!(watcher.step(waited()), PollAction::Query);
    assert_eq!(watcher.step(PollEvent::Hash(None)), PollAction::Wait { secs: 5 });
    assert_eq!(watcher.step(PollEvent::Waited { closed: true }), PollAction::Stop);
    assert_eq!(watcher.step(waited()), PollAction::Stop);

    let mut watcher = DoltWatcher::begin("/p".to_string());
    assert_eq!(watcher.step(PollEvent::ClientGone), PollAction::Stop);

    let mut watcher = DoltWatcher::begin("/p".to_string());
    let _ = watcher.step(PollEvent::Delivered);
    let _ = watcher.step(hash("h1"));
    assert_eq!(watcher.step(PollEvent::Ticked { closed: true }), PollAction::Stop);

    let mut watcher = DoltWatcher::begin("/p".to_string());
    let _ = watcher.step(PollEvent::Delivered);
    let _ = watcher.step(hash("h1"));
    let _ = watcher.step(PollEvent::Ticked { closed: false });
    assert_eq!(watcher.step(PollEvent::Hash(None)), PollAction::Wait { secs: 5 });
    assert_eq!(watcher.step(PollEvent::Waited { closed: true }), PollAction::Stop);
}

#[test]
fn test_dolt_watch_connected_event_has_project_path() {
    let expected_path = "/some/project \u{fffd}".to_string();
    let watcher = DoltWatcher::begin(expected_path.clone());
    assert_eq!(
        watcher.action(),
        PollAction::Send(FileChangeEvent::new(&expected_path, "connected"))
    );
}

#[test]
fn hashes_come_from_whole_replies_only() {
    assert_eq!(query_hash(HashReply::NoServer), None);
    assert_eq!(query_hash(HashReply::NoConnection), None);
    assert_eq!(query_hash(HashReply::QueryFailed), None);
    assert_eq!(query_hash(HashReply::Row(None)), None);
    let no_issues = HashRow {
        issues: None,
        comments: Some("c".to_string()),
        dependencies: Some("d".to_string()),
    };
    assert_eq!(query_hash(HashReply::Row(Some(no_issues))), None);
    let row = HashRow {
        issues: Some("i".to_string()),
        comments: Some("c".to_string()),
        dependencies: None,
    };
    assert_eq!(
        query_hash(HashReply::Row(Some(row))),
        Some(TableHashes {
            issues: "i".to_string(),
            comments: Some("c".to_string()),
            dependencies: None,
        })
    );
    assert_eq!(
        HASH_QUERY,
        "SELECT dolt_hashof_table('issues'), dolt_hashof_table('comments'), dolt_hashof_table('dependencies')"
    );
    assert_eq!(POLL_INTERVAL_SECS, 2);
}

#[test]
fn polling_tells_of_every_change_of_the_hash() {
    let mut watcher = DoltWatcher::begin("/p".to_string());
    assert_eq!(watcher.step(PollEvent::Delivered), PollAction::Query);
    assert_eq!(watcher.step(PollEvent::Hash(None)), PollAction::Wait { secs: 5 });
    assert_eq!(watcher.step(waited()), PollAction::Query);
    assert_eq!(watcher.step(hash("h1")), PollAction::Tick);
    assert_eq!(watcher.step(PollEvent::Ticked { closed: false }), PollAction::Query);
    assert_eq!(watcher.step(hash("h1")), PollAction::Tick);
    assert_eq!(watcher.step(PollEvent::Ticked { closed: false }), PollAction::Query);
    assert_eq!(watcher.step(hash("h2")), sent("modified"));
    assert_eq!(watcher.step(PollEvent::Delivered), PollAction::Tick);
    assert_eq!(watcher.step(PollEvent::Ticked { closed: false }), PollAction::Query);
    // A failed query does not hide the change that follows it.
    assert_eq!(watcher.step(PollEvent::Hash(None)), PollAction::Wait { secs: 5 });
    assert_eq!(watcher.step(waited()), PollAction::Tick);
    assert_eq!(watcher.step(PollEvent::Ticked { closed: false }), PollAction::Query);
    assert_eq!(watcher.step(hash("h1")), sent("modified"));
    assert_eq!(watcher.step(PollEvent::ClientGone), PollAction::Stop);
    assert_eq!(watcher.step(PollEvent::Delivered), PollAction::Stop);
}

#[test]
fn a_change_of_any_table_is_told() {
    let seen = [
        hashes("i1", Some("c1"), Some("d1")),
        hashes("i1", Some("c2"), Some("d1")),
        hashes("i1", Some("c2"), Some("d2")),
        hashes("i2", Some("c2"), Some("d2")),
        hashes("i2", None, Some("d2")),
        hashes("i2", None, None),
    ];
    let mut watcher = DoltWatcher::begin("/p".to_string());
    let _ = watcher.step(PollEvent::Delivered);
    assert_eq!(watcher.step(seen[0].clone()), PollAction::Tick);
    for event in &seen[1..] {
        let _ = watcher.step(PollEvent::Ticked { closed: false });
        assert_eq!(watcher.step(event.clone()), sent("modified"));
        assert_eq!(watcher.step(PollEvent::Delivered), PollAction::Tick);
        let _ = watcher.step(PollEvent::Ticked { closed: false });
        assert_eq!(watcher.step(event.clone()), PollAction::Tick);
    }
}

#[test]
fn unexpected_events_repeat_what_has_to_be_done() {
    let mut watcher = DoltWatcher::begin("/p".to_string());
    assert_eq!(watcher.step(waited()), sent("connected"));
    assert_eq!(watcher.step(hash("h1")), sent("connected"));
    assert_eq!(watcher.step(PollEvent::Ticked { closed: true }), sent("connected"));
}

// ---- JSONL -----------------------------------------------------------------

const MS: u128 = 1_000_000;

fn started() -> JsonlWatcher {
    let (mut watcher, action) = JsonlWatcher::start(
        path(&["/", "p", ".beads", "issues.jsonl"]),
        "/p/.beads/issues.jsonl".to_string(),
    );
    assert_eq!(
        action,
        WatcherAction::Send {
            event: FileChangeEvent::new("/p/.beads/issues.jsonl", "connected"),
            recompute_epics: false,
        }
    );
    assert_eq!(watcher.step(WatcherInput::Delivered { now: 0 }), WatcherAction::Listen);
    watcher
}

fn changed(names: &[&str], kind: ChangeKind, now: u128) -> WatcherInput {
    WatcherInput::Changed { paths: vec![path(names)], kind, now }
}

fn told(change_type: &str, recompute_epics: bool) -> WatcherAction {
    WatcherAction::Send {
        event: FileChangeEvent::new("/p/.beads/issues.jsonl", change_type),
        recompute_epics,
    }
}

const FILE: [&str; 4] = ["/", "p", ".beads", "issues.jsonl"];

#[test]
fn the_watched_directory_is_the_nearest_that_exists() {
    assert_eq!(choose_watch_target(true, Some(true)), WatchTarget::Directory);
    assert_eq!(choose_watch_target(true, None), WatchTarget::Directory);
    assert_eq!(choose_watch_target(false, Some(true)), WatchTarget::Parent);
    assert_eq!(choose_watch_target(false, Some(false)), WatchTarget::Nothing);
    assert_eq!(choose_watch_target(false, None), WatchTarget::Nothing);
}

#[test]
fn only_some_paths_are_relevant() {
    let issue_file = path(&["/", "p", "beads.db"]);
    assert!(is_relevant(&vec![path(&["/", "p", "beads.db"])], &issue_file));
    assert!(is_relevant(&vec![path(&["/", "q", "issues.jsonl"])], &issue_file));
    assert!(is_relevant(&vec![path(&["/", "q", ".beads"])], &issue_file));
    assert!(is_relevant(&vec![path(&["/", "x"]), path(&[".beads"])], &issue_file));
    assert!(!is_relevant(&vec![], &issue_file));
    assert!(!is_relevant(&vec![path(&["/", "p", "xissues.jsonl"])], &issue_file));
    assert!(!is_relevant(&vec![path(&["/", "p", ".beads", "x"])], &issue_file));
}

#[test]
fn changes_are_told_by_their_kind() {
    let mut watcher = started();
    assert_eq!(watcher.step(changed(&FILE, ChangeKind::Create, 100 * MS)), told("created", true));
    assert_eq!(watcher.step(WatcherInput::Delivered { now: 101 * MS }), WatcherAction::Listen);
    assert_eq!(watcher.step(changed(&FILE, ChangeKind::Modify, 200 * MS)), told("modified", true));
    assert_eq!(watcher.step(changed(&FILE, ChangeKind::Remove, 300 * MS)), told("removed", false));
    assert_eq!(watcher.step(changed(&FILE, ChangeKind::Other, 400 * MS)), WatcherAction::Listen);
}

#[test]
fn changes_that_come_too_early_are_not_told() {
    let mut watcher = started();
    assert_eq!(
        watcher.step(changed(&FILE, ChangeKind::Modify, 100 * MS - 1)),
        WatcherAction::Listen
    );
    assert_eq!(watcher.step(changed(&FILE, ChangeKind::Modify, 100 * MS)), told("modified", true));
    assert_eq!(
        watcher.step(changed(&FILE, ChangeKind::Modify, 199 * MS)),
        WatcherAction::Listen
    );
    // A change of a kind that is not told silences those that follow it.
    assert_eq!(watcher.step(changed(&FILE, ChangeKind::Other, 250 * MS)), WatcherAction::Listen);
    assert_eq!(
        watcher.step(changed(&FILE, ChangeKind::Modify, 300 * MS)),
        WatcherAction::Listen
    );
    // A change elsewhere does not.
    assert_eq!(
        watcher.step(changed(&["/", "p", "x"], ChangeKind::Modify, 340 * MS)),
        WatcherAction::Listen
    );
    assert_eq!(watcher.step(changed(&FILE, ChangeKind::Modify, 350 * MS)), told("modified", true));
}

#[test]
fn the_watch_ends_with_the_client_or_the_source() {
    let mut watcher = started();
    assert_eq!(watcher.step(WatcherInput::ClientGone), WatcherAction::Stop);
    let mut watcher = started();
    assert_eq!(watcher.step(WatcherInput::SourceClosed), WatcherAction::Stop);
}
