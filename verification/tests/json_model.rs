use strimzi_ops::connect::paths::{connector_path, http_failure_reason, send_failure_reason, shown_path, task_restart_path};
use strimzi_ops::document::{parse_json_bytes, parse_json_object_text, parse_json_text, parse_toml_text, parse_yaml_text};
use strimzi_ops::json::{JsonObject, JsonValue};
use strimzi_ops::monitor::notification::{consume_step, poll_outcome, ConsumeAction, NotificationMonitor};
use strimzi_ops::error::Error;

#[test]
fn object_reads_back_what_was_set() {
    let mut o = JsonObject::new();
    o.insert("b".to_string(), JsonValue::Bool(true));
    o.insert("a".to_string(), JsonValue::Null);
    o.insert("b".to_string(), JsonValue::String("x".to_string()));
    assert_eq!(o.len(), 2);
    assert_eq!(o.keys(), vec!["a", "b"]);
    assert_eq!(o.get("b").and_then(|v| v.as_str()).map(|s| s.as_str()), Some("x"));
    assert!(o.remove("b").is_some());
    assert!(o.get("b").is_none());
    assert!(o.contains_key("a"));
}

#[test]
fn compact_text_matches_serde() {
    let v = parse_json_text(r#"{"b": [1, -2, 3.5, true, null], "a": "q\"\n\u0001é"}"#).unwrap();
    assert_eq!(v.to_compact(), r#"{"a":"q\"\n\u0001é","b":[1,-2,3.5,true,null]}"#);
}

#[test]
fn parsers_report_errors() {
    assert!(parse_json_text("{").is_err());
    assert!(parse_json_object_text("[1]").is_err());
    assert_eq!(parse_json_object_text(r#"{"k": 1}"#).unwrap().len(), 1);
    assert!(parse_yaml_text("a: [").is_err());
    assert!(parse_toml_text("x = ").is_err());
    let t = parse_toml_text("[s]\nk = 2\n").unwrap();
    assert_eq!(t.member("s").and_then(|s| s.member("k")).and_then(|k| k.as_i64()), Some(2));
    let y = parse_yaml_text("n: 4\n").unwrap();
    assert_eq!(y.member("n").and_then(|n| n.as_u64()), Some(4));
    assert_eq!(parse_json_bytes(b"[7]").unwrap().to_compact(), "[7]");
}

#[test]
fn connect_paths_and_failure_texts() {
    assert_eq!(connector_path("demo", "/pause"), "connectors/demo/pause");
    assert_eq!(task_restart_path("demo", 3), "connectors/demo/tasks/3/restart");
    assert_eq!(shown_path(""), "/");
    assert_eq!(shown_path("connectors"), "connectors");
    assert_eq!(http_failure_reason("404 Not Found", "not found"), "HTTP 404 Not Found: not found");
    assert!(http_failure_reason("404 Not Found", "").contains("404"));
    assert_eq!(send_failure_reason("http://x/", "boom", false), "request to http://x/ failed: boom");
    assert!(send_failure_reason("http://x/", "boom", true).starts_with("cannot reach http://x/ (boom). Is Kafka Connect running"));
}

#[test]
fn notification_loop_decisions() {
    let mut m = NotificationMonitor::new("k:9092".to_string(), "debezium.notifications".to_string());
    assert_eq!(m.notification_topic(), "debezium.notifications");
    assert!(matches!(consume_step(&m, 0, None), ConsumeAction::Fail(Error::MonitorNotStarted)));
    m.start();
    assert!(matches!(consume_step(&m, 5, Some(10)), ConsumeAction::Poll));
    assert!(matches!(consume_step(&m, 11, Some(10)), ConsumeAction::Finish));
    assert!(matches!(consume_step(&m, u128::MAX, None), ConsumeAction::Poll));
    m.stop();
    assert!(!m.started);
}

#[test]
fn poll_results_become_notifications() {
    assert!(matches!(poll_outcome(None), Ok(None)));
    assert!(matches!(poll_outcome(Some(Ok(None))), Ok(None)));
    assert!(matches!(poll_outcome(Some(Ok(Some(b"not json".to_vec())))), Ok(None)));
    match poll_outcome(Some(Ok(Some(br#"{"type":"STARTED"}"#.to_vec())))) {
        Ok(Some(v)) => assert_eq!(v.to_compact(), r#"{"type":"STARTED"}"#),
        _ => panic!("expected a notification"),
    }
    match poll_outcome(Some(Err("down".to_string()))) {
        Err(Error::Kafka { reason }) => assert_eq!(reason, "consumer poll failed: down"),
        _ => panic!("expected an error"),
    }
}

#[test]
fn parsed_objects_have_ascending_unique_keys() {
    let o = parse_json_object_text(r#"{"zeta": 1, "Alpha": {"y": 2, "x": 3}, "é": 0, "beta": 4, "beta": 5}"#)
        .unwrap();
    assert_eq!(o.keys(), vec!["Alpha", "beta", "zeta", "é"]);
    assert_eq!(o.get("beta").and_then(|v| v.as_u64()), Some(5));
    match o.get("Alpha") {
        Some(JsonValue::Object(inner)) => assert_eq!(inner.keys(), vec!["x", "y"]),
        _ => panic!("nested object expected"),
    }
    let y = parse_yaml_text("b: 1\na: [{d: 1, c: 2}]\n").unwrap();
    assert_eq!(y.to_compact(), r#"{"a":[{"c":2,"d":1}],"b":1}"#);
    let t = parse_toml_text("b = 1\na = 2\n").unwrap();
    assert_eq!(t.to_compact(), r#"{"a":2,"b":1}"#);
}
