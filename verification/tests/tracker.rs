use strimzi_ops::document::parse_json_text;
use strimzi_ops::json::JsonValue;
use strimzi_ops::monitor::tracker::SnapshotTracker;
use strimzi_ops::ops::monitor::progress_line;

fn note(text: &str) -> JsonValue {
    parse_json_text(text).expect("json")
}

#[test]
fn tracks_snapshot_lifecycle() {
    let mut tracker = SnapshotTracker::new();
    tracker.process_notification(&note(r#"{"type": "STARTED", "aggregateType": "demo", "timestamp": 1}"#));
    tracker.process_notification(&note(r#"{"type": "IN_PROGRESS", "aggregateType": "demo", "data": {"progress": 40}}"#));
    tracker.process_notification(&note(r#"{"type": "COMPLETED", "aggregateType": "demo", "timestamp": 2}"#));

    let state = tracker.get_snapshot_status("demo").expect("state");
    assert_eq!(state.status, "COMPLETED");
    assert_eq!(state.progress, 100);
    assert_eq!(state.start_time.as_ref().map(|v| v.to_compact()), Some("1".to_string()));
    assert_eq!(state.end_time.as_ref().map(|v| v.to_compact()), Some("2".to_string()));
}

#[test]
fn ignores_notifications_without_connector() {
    let mut tracker = SnapshotTracker::new();
    tracker.process_notification(&note(r#"{"type": "STARTED"}"#));
    assert!(tracker.get_all_snapshots().is_empty());
}

#[test]
fn progress_before_start_is_ignored() {
    let mut tracker = SnapshotTracker::new();
    tracker.process_notification(&note(r#"{"type": "IN_PROGRESS", "aggregateType": "demo", "data": {"progress": 40}}"#));
    assert!(tracker.get_snapshot_status("demo").is_none());
}

#[test]
fn abort_keeps_progress_and_other_connectors() {
    let mut tracker = SnapshotTracker::new();
    tracker.process_notification(&note(r#"{"type": "STARTED", "aggregateType": "a", "timestamp": 5}"#));
    tracker.process_notification(&note(r#"{"type": "STARTED", "aggregateType": "b"}"#));
    tracker.process_notification(&note(r#"{"type": "IN_PROGRESS", "aggregateType": "a", "data": {"progress": 30}}"#));
    tracker.process_notification(&note(r#"{"type": "ABORTED", "aggregateType": "a", "timestamp": 9}"#));
    let a = tracker.get_snapshot_status("a").unwrap();
    assert_eq!(a.status, "ABORTED");
    assert_eq!(a.progress, 30);
    assert_eq!(a.end_time.as_ref().map(|v| v.to_compact()), Some("9".to_string()));
    let b = tracker.get_snapshot_status("b").unwrap();
    assert_eq!(b.status, "STARTED");
    assert_eq!(b.progress, 0);
    assert_eq!(tracker.get_all_snapshots().len(), 2);
}

#[test]
fn monitor_prints_progress_of_tracked_connector() {
    let mut tracker = SnapshotTracker::new();
    assert_eq!(
        progress_line(&mut tracker, &note(r#"{"type": "STARTED", "aggregateType": "demo"}"#)),
        Some("demo: STARTED (0%)".to_string())
    );
    assert_eq!(
        progress_line(&mut tracker, &note(r#"{"type": "IN_PROGRESS", "aggregateType": "demo", "data": {"progress": 55}}"#)),
        Some("demo: IN_PROGRESS (55%)".to_string())
    );
    assert_eq!(progress_line(&mut tracker, &note(r#"{"type": "IN_PROGRESS", "aggregateType": "other"}"#)), None);
    assert_eq!(progress_line(&mut tracker, &note(r#"{"type": "STARTED"}"#)), None);
}
