use roxlit::backup::{backup_dir_path, cleanup_plan, json_escape, sort_timestamps, strip_prefix, BackupManifest};
use roxlit::coordinator::{
    extract_outcome, file_changed_events, needs_restore, pull_next, push_next, reconcile_events,
    sync_outcome, Coordinator, PullInput, PullPhase, PushInput, PushPhase, Side,
};
use roxlit::debounce::{debounce_replay, ChangeBatch};
use roxlit::events::SyncEvent;
use roxlit::paths::{is_ignored, is_luau, is_rbxjson, qualifies};
use roxlit::snapshot::{detect_conflicts, is_conflict, MtimeSnapshot};

fn ev(t: u64, p: &str) -> (u64, String) {
    (t, p.to_string())
}

#[test]
fn debounce_coalesces_close_events_into_one_batch() {
    // five qualifying events, each 100ms after the one before, window 1500ms
    let events = vec![
        ev(0, "/p/instances/a.rbxjson"),
        ev(100, "/p/instances/b.rbxjson"),
        ev(200, "/p/instances/a.rbxjson"),
        ev(300, "/p/instances/c.rbxjson"),
        ev(400, "/p/instances/b.rbxjson"),
    ];
    let batches = debounce_replay(&events, 1500);
    assert_eq!(batches.len(), 1);
    assert_eq!(
        batches[0],
        vec![
            "/p/instances/a.rbxjson".to_string(),
            "/p/instances/b.rbxjson".to_string(),
            "/p/instances/c.rbxjson".to_string(),
        ]
    );
}

#[test]
fn debounce_splits_wide_events_into_separate_batches() {
    let events = vec![
        ev(0, "/p/instances/a.rbxjson"),
        ev(2000, "/p/instances/b.rbxjson"),
        ev(4000, "/p/instances/c.rbxjson"),
    ];
    let batches = debounce_replay(&events, 1500);
    assert_eq!(batches.len(), 3);
    assert_eq!(batches[0], vec!["/p/instances/a.rbxjson".to_string()]);
    assert_eq!(batches[1], vec!["/p/instances/b.rbxjson".to_string()]);
    assert_eq!(batches[2], vec!["/p/instances/c.rbxjson".to_string()]);
}

#[test]
fn debounce_drops_non_qualifying_events() {
    let events = vec![
        ev(0, "/p/instances/a.rbxjson"),
        ev(100, "/p/instances/ignore.luau"),
        ev(200, "/p/.git/objects/x.rbxjson"),
        ev(300, "/p/node_modules/y.rbxjson"),
    ];
    let batches = debounce_replay(&events, 1500);
    assert_eq!(batches.len(), 1);
    assert_eq!(batches[0], vec!["/p/instances/a.rbxjson".to_string()]);
}

#[test]
fn debounce_all_ignored_yields_no_batch() {
    let events = vec![ev(0, "/p/.roxlit/backups/1/a.rbxjson"), ev(100, "/p/.git/a.rbxjson")];
    let batches = debounce_replay(&events, 1500);
    assert!(batches.is_empty());
}

#[test]
fn change_batch_deduplicates_in_arrival_order() {
    let mut batch = ChangeBatch::new();
    batch.add_path("/p/instances/a.rbxjson");
    batch.add_path("/p/instances/b.rbxjson");
    batch.add_path("/p/instances/a.rbxjson");
    batch.add_path("/p/.roxlit/x.rbxjson");
    assert_eq!(batch.len(), 2);
    assert!(!batch.is_empty());
    let paths = batch.into_paths();
    assert_eq!(paths, vec!["/p/instances/a.rbxjson".to_string(), "/p/instances/b.rbxjson".to_string()]);
}

#[test]
fn path_classification() {
    assert!(is_rbxjson("/p/instances/a.rbxjson"));
    assert!(!is_rbxjson("/p/instances/.rbxjson"));
    assert!(!is_rbxjson("/p/instances/a.luau"));
    assert!(is_luau("/p/src/main.server.luau"));
    assert!(is_ignored("/p/.roxlit/logs/latest.log"));
    assert!(is_ignored("/p/.git/HEAD"));
    assert!(is_ignored("/p/node_modules/x/a.rbxjson"));
    assert!(!is_ignored("/p/instances/a.rbxjson"));
    assert!(qualifies("/p/instances/a.rbxjson"));
    assert!(!qualifies("/p/.git/a.rbxjson"));
    assert!(!qualifies("/p/instances/a.luau"));
}

#[test]
fn conflict_rule_examples() {
    // push at 100, local edit at 105, pull changes the file at 110: conflict
    assert!(is_conflict(Some(105), 110, 100));
    // push at 100, no local edit since (pre-pull time 90): no conflict
    assert!(!is_conflict(Some(90), 110, 100));
    // file unchanged by the pull: no conflict even with a late edit
    assert!(!is_conflict(Some(105), 105, 100));
    // brand-new file: no local-edit time, never a conflict
    assert!(!is_conflict(None, 110, 100));
}

#[test]
fn detect_conflicts_reports_only_overwritten_local_edits() {
    let mut pre = MtimeSnapshot::new();
    pre.record("/p/instances/edited.rbxjson", 105);
    pre.record("/p/instances/stale.rbxjson", 90);
    pre.record("/p/instances/same.rbxjson", 105);
    let mut post = MtimeSnapshot::new();
    post.record("/p/instances/edited.rbxjson", 110);
    post.record("/p/instances/stale.rbxjson", 110);
    post.record("/p/instances/same.rbxjson", 105);
    post.record("/p/instances/new.rbxjson", 110);
    let conflicts = detect_conflicts(&pre, &post, 100);
    assert_eq!(conflicts, vec!["/p/instances/edited.rbxjson".to_string()]);
}

#[test]
fn unchanged_tree_yields_no_conflicts() {
    let mut snap = MtimeSnapshot::new();
    snap.record("/p/instances/a.rbxjson", 50);
    snap.record("/p/instances/b.rbxjson", 60);
    let mut again = MtimeSnapshot::new();
    again.record("/p/instances/a.rbxjson", 50);
    again.record("/p/instances/b.rbxjson", 60);
    assert!(detect_conflicts(&snap, &again, 10).is_empty());
    assert!(detect_conflicts(&snap, &again, 1000).is_empty());
}

#[test]
fn snapshot_record_replaces_and_looks_up() {
    let mut s = MtimeSnapshot::new();
    s.record("/a", 1);
    s.record("/b", 2);
    s.record("/a", 3);
    assert_eq!(s.len(), 2);
    assert_eq!(s.lookup("/a"), Some(3));
    assert_eq!(s.lookup("/b"), Some(2));
    assert_eq!(s.lookup("/c"), None);
}

#[test]
fn retention_removes_exactly_the_oldest() {
    // backups at 101..=112, cap 10: the two oldest go
    let stamps: Vec<u64> = vec![105, 101, 112, 103, 108, 102, 110, 104, 107, 106, 111, 109];
    let (doomed, kept) = cleanup_plan(stamps, 10);
    assert_eq!(doomed, vec![101, 102]);
    assert_eq!(kept, vec![103, 104, 105, 106, 107, 108, 109, 110, 111, 112]);
}

#[test]
fn retention_under_cap_removes_nothing() {
    let (doomed, kept) = cleanup_plan(vec![7, 3, 5], 20);
    assert!(doomed.is_empty());
    assert_eq!(kept, vec![3, 5, 7]);
}

#[test]
fn sort_timestamps_orders_ascending() {
    assert_eq!(sort_timestamps(vec![3, 1, 2, 1]), vec![1, 1, 2, 3]);
    assert_eq!(sort_timestamps(vec![]), Vec::<u64>::new());
}

#[test]
fn backup_paths_and_manifest() {
    assert_eq!(backup_dir_path("/p", 1735689600), "/p/.roxlit/backups/1735689600");
    let m = BackupManifest {
        timestamp: 42,
        files: vec!["Workspace/a.rbxjson".to_string(), "Light \"x\"\\n.rbxjson".to_string()],
    };
    assert_eq!(
        m.to_json(),
        "{\n  \"timestamp\": 42,\n  \"files\": [\"Workspace/a.rbxjson\", \"Light \\\"x\\\"\\\\n.rbxjson\"]\n}\n"
    );
    let empty = BackupManifest { timestamp: 7, files: vec![] };
    assert_eq!(empty.to_json(), "{\n  \"timestamp\": 7,\n  \"files\": []\n}\n");
}

#[test]
fn manifest_matches_for_identical_file_lists() {
    let a = BackupManifest { timestamp: 9, files: vec!["x.rbxjson".to_string()] };
    let b = BackupManifest { timestamp: 9, files: vec!["x.rbxjson".to_string()] };
    assert_eq!(a.to_json(), b.to_json());
}

#[test]
fn json_escape_examples() {
    assert_eq!(json_escape("plain"), "plain");
    assert_eq!(json_escape("a\"b\\c"), "a\\\"b\\\\c");
    assert_eq!(json_escape("line\nbreak\tand\rmore"), "line\\nbreak\\tand\\rmore");
    assert_eq!(json_escape("\u{1}"), "\\u0001");
}

#[test]
fn strip_prefix_drops_base_and_separator() {
    assert_eq!(strip_prefix("/p/instances/a.rbxjson", "/p/instances"), Some("a.rbxjson".to_string()));
    assert_eq!(strip_prefix("/p/instances", "/p/instances"), Some("".to_string()));
    assert_eq!(strip_prefix("/q/a.rbxjson", "/p"), None);
}

#[test]
fn lock_discipline_runs_one_side_at_a_time() {
    let mut c = Coordinator::new();
    c.acquire(Side::Push);
    c.start_tool(Side::Push);
    c.finish_tool(Side::Push);
    c.release(Side::Push);
    c.acquire(Side::Pull);
    c.start_tool(Side::Pull);
    c.finish_tool(Side::Pull);
    c.release(Side::Pull);
}

#[test]
fn push_phase_transitions() {
    assert_eq!(push_next(PushPhase::Idle, PushInput::QualifyingEvent), PushPhase::Accumulating);
    assert_eq!(
        push_next(PushPhase::Accumulating, PushInput::QuietElapsed { batch_empty: false }),
        PushPhase::Syncing
    );
    assert_eq!(
        push_next(PushPhase::Accumulating, PushInput::QuietElapsed { batch_empty: true }),
        PushPhase::Idle
    );
    assert_eq!(push_next(PushPhase::Syncing, PushInput::SyncFinished), PushPhase::Idle);
    // anything else stays put
    assert_eq!(push_next(PushPhase::Idle, PushInput::SyncFinished), PushPhase::Idle);
}

#[test]
fn pull_phase_transitions() {
    assert_eq!(pull_next(PullPhase::Sleeping, PullInput::IntervalElapsed), PullPhase::Snapshotting);
    assert_eq!(pull_next(PullPhase::Snapshotting, PullInput::SnapshotTaken), PullPhase::BackingUp);
    assert_eq!(
        pull_next(PullPhase::BackingUp, PullInput::BackupDone { tracked_tree: true }),
        PullPhase::Syncing
    );
    assert_eq!(
        pull_next(PullPhase::BackingUp, PullInput::BackupDone { tracked_tree: false }),
        PullPhase::Sleeping
    );
    assert_eq!(
        pull_next(PullPhase::Syncing, PullInput::SyncDone { success: true }),
        PullPhase::Reconciling
    );
    assert_eq!(
        pull_next(PullPhase::Syncing, PullInput::SyncDone { success: false }),
        PullPhase::Sleeping
    );
    assert_eq!(pull_next(PullPhase::Reconciling, PullInput::ReconcileDone), PullPhase::Sleeping);
}

#[test]
fn outcome_messages() {
    assert_eq!(sync_outcome(true, "out", "err"), Ok("outerr".to_string()));
    assert_eq!(
        sync_outcome(false, "out", "err"),
        Err("rbxsync sync failed: outerr".to_string())
    );
    assert_eq!(extract_outcome(true, "done ", "", 0), Ok("done ".to_string()));
    assert_eq!(
        extract_outcome(true, "done", "", 2),
        Ok("done\n(Roxlit: restored 2 .luau file(s) — Rojo owns scripts)".to_string())
    );
    assert_eq!(
        extract_outcome(false, "a", "b", 5),
        Err("rbxsync extract failed: ab".to_string())
    );
}

#[test]
fn restore_only_changed_files() {
    let original = vec![1u8, 2, 3];
    assert!(!needs_restore(&original, Some(&vec![1u8, 2, 3])));
    assert!(needs_restore(&original, Some(&vec![1u8, 2, 4])));
    assert!(needs_restore(&original, Some(&vec![1u8, 2])));
    assert!(!needs_restore(&original, None));
}

#[test]
fn reconcile_emits_conflict_events_with_backup() {
    let mut pre = MtimeSnapshot::new();
    pre.record("/p/instances/edited.rbxjson", 105);
    let mut post = MtimeSnapshot::new();
    post.record("/p/instances/edited.rbxjson", 110);
    let events = reconcile_events(&pre, &post, Some(100), "/p/.roxlit/backups/110");
    assert_eq!(events.len(), 1);
    match &events[0] {
        SyncEvent::Conflict { path, backup_path } => {
            assert_eq!(path, "/p/instances/edited.rbxjson");
            assert_eq!(backup_path, "/p/.roxlit/backups/110");
        }
        other => panic!("expected a conflict event, got {:?}", other),
    }
    // no prior push: nothing to compare against
    assert!(reconcile_events(&pre, &post, None, "/p/.roxlit/backups/110").is_empty());
}

#[test]
fn file_changed_events_keep_batch_order() {
    let paths = vec!["/a.rbxjson".to_string(), "/b.rbxjson".to_string()];
    let events = file_changed_events(&paths);
    assert_eq!(events.len(), 2);
    match &events[0] {
        SyncEvent::FileChanged { path } => assert_eq!(path, "/a.rbxjson"),
        other => panic!("expected a file-changed event, got {:?}", other),
    }
}
