use strimzi_ops::connect::types::{ClusterInfo, ConnectorPlugin};
use strimzi_ops::control::snapshot::SnapshotResult;
use strimzi_ops::document::parse_json_text;
use strimzi_ops::json::{JsonObject, JsonValue};
use strimzi_ops::linter::config::LinterConfig;
use strimzi_ops::linter::engine::ConnectorLinter;
use strimzi_ops::settings::ConnectionSettings;
use strimzi_ops::ui::control::{
    action_redirect, build_control_page, create_request_from_value, edit_refusal, snapshot_redirect,
    urlencoding_encode,
};
use strimzi_ops::ui::dashboard::{build_dashboard, dashboard_inputs_ok, truncate_error};
use strimzi_ops::ui::error::Error as UiError;
use strimzi_ops::ui::state::AppState;
use strimzi_ops::ui::views::ControlQuery;

fn page_input(text: &str) -> JsonObject {
    match parse_json_text(text) {
        Ok(JsonValue::Object(o)) => o,
        _ => panic!("not a JSON object"),
    }
}

fn cluster() -> ClusterInfo {
    ClusterInfo { version: Some("3.7.0".to_string()), commit: None, kafka_cluster_id: None }
}

#[test]
fn summarizes_running_connector() {
    let all = page_input(
        r#"{"demo": {"info": {"type": "source"},
                     "status": {"connector": {"state": "RUNNING"}, "tasks": [{"id": 0, "state": "RUNNING"}]}}}"#,
    );
    assert!(dashboard_inputs_ok(&all));
    let page = build_dashboard(&cluster(), &Vec::new(), &all, None);
    assert_eq!(page.metrics.running_connectors, 1);
    assert_eq!(page.metrics.running_tasks, 1);
    assert_eq!(page.metrics.total_tasks, 1);
    assert_eq!(truncate_error(Some(&"x".repeat(250))).len(), 203);
}

#[test]
fn dashboard_counts_states_and_failures() {
    let all = page_input(
        r#"{"zeta": {"status": {"connector": {"state": "FAILED", "trace": "boom"}, "tasks": []}},
            "alpha": {"info": {"type": "sink"},
                      "status": {"connector": {"state": "RUNNING"},
                                 "tasks": [{"id": 0, "state": "RUNNING"}, {"id": 1, "state": "FAILED"}]}},
            "mid": {"status": {"connector": {"state": "PAUSED"}}}}"#,
    );
    let plugins = vec![ConnectorPlugin { class: "x".to_string(), plugin_type: None, version: None }];
    let page = build_dashboard(&cluster(), &plugins, &all, Some("hi".to_string()));
    assert_eq!(page.active, "dashboard");
    assert_eq!(page.version, "3.7.0");
    assert_eq!(page.kafka_cluster_id, "Unknown");
    assert_eq!(page.plugins, 1);
    assert_eq!(page.metrics.total_connectors, 3);
    assert_eq!(page.metrics.running_connectors, 1);
    assert_eq!(page.metrics.failed_connectors, 1);
    assert_eq!(page.metrics.running_tasks, 1);
    assert_eq!(page.metrics.total_tasks, 2);
    let dist: Vec<(&str, usize)> = page.status_distribution.iter().map(|s| (s.state.as_str(), s.count)).collect();
    assert_eq!(dist, vec![("FAILED", 1), ("PAUSED", 1), ("RUNNING", 1)]);
    assert_eq!(page.status_distribution.iter().map(|s| s.count).sum::<usize>(), page.metrics.total_connectors);
    let failures: Vec<(&str, &str, &str)> =
        page.failures.iter().map(|f| (f.name.as_str(), f.kind.as_str(), f.error.as_str())).collect();
    assert_eq!(failures, vec![("alpha (Task 1)", "Task", "Unknown error"), ("zeta", "Connector", "boom")]);
    let names: Vec<&str> = page.connectors.iter().map(|c| c.name.as_str()).collect();
    assert_eq!(names, vec!["alpha", "mid", "zeta"]);
    assert_eq!(page.connectors[0].connector_type, "sink");
    assert_eq!(page.connectors[1].connector_type, "unknown");
    assert_eq!(page.connectors[0].tasks_running, 1);
    assert_eq!(page.connectors[0].tasks_total, 2);
    assert_eq!(page.flash.as_deref(), Some("hi"));
}

#[test]
fn truncation_keeps_short_traces_and_cuts_long_ones() {
    assert_eq!(truncate_error(None), "Unknown error");
    assert_eq!(truncate_error(Some("short")), "short");
    let exact = "y".repeat(200);
    assert_eq!(truncate_error(Some(&exact)), exact);
    let long = format!("{}tail", "z".repeat(200));
    assert_eq!(truncate_error(Some(&long)), format!("{}...", "z".repeat(200)));
}

#[test]
fn traces_that_split_a_character_are_refused() {
    let trace = format!("{}é", "a".repeat(199));
    let all = page_input(&format!(
        r#"{{"c": {{"status": {{"connector": {{"state": "FAILED", "trace": "{trace}"}}}}}}}}"#
    ));
    assert!(!dashboard_inputs_ok(&all));
}

#[test]
fn control_page_lists_connectors_in_name_order() {
    let all = page_input(
        r#"{"b": {"status": {"connector": {"state": "RUNNING"}, "tasks": [{"state": "RUNNING"}]}},
            "a": {"status": {"tasks": "none"}}}"#,
    );
    let page = build_control_page(&all, ControlQuery { flash: None, focus: Some("b".to_string()) });
    assert_eq!(page.active, "control");
    let rows: Vec<(&str, &str, usize, usize, bool)> = page
        .connectors
        .iter()
        .map(|r| (r.name.as_str(), r.state.as_str(), r.tasks_running, r.tasks_total, r.focused))
        .collect();
    assert_eq!(rows, vec![("a", "UNKNOWN", 0, 0, false), ("b", "RUNNING", 1, 1, true)]);
    assert_eq!(page.focus.as_deref(), Some("b"));
}

#[test]
fn redirects_carry_flash_and_focus() {
    assert_eq!(action_redirect("Paused", "demo"), "/control?flash=Paused%20demo&focus=demo");
    let result = SnapshotResult { status: "success".to_string(), message: "Signal sent to s".to_string(), signal_id: None };
    assert_eq!(
        snapshot_redirect("demo", &result),
        "/control?flash=Snapshot+success%3A+Signal+sent+to+s&focus=demo"
    );
}

#[test]
fn url_encoding_of_bytes() {
    assert_eq!(urlencoding_encode("a-b_c.d~e f"), "a-b_c.d~e+f");
    assert_eq!(urlencoding_encode("é/?"), "%C3%A9%2F%3F");
}

#[test]
fn create_payload_forms() {
    let nested = parse_json_text(r#"{"name": "n", "config": {"a": "1"}}"#).unwrap();
    let req = create_request_from_value(&nested).unwrap();
    assert_eq!(req.name, "n");
    assert_eq!(JsonValue::Object(req.config).to_compact(), r#"{"a":"1"}"#);
    let flat = parse_json_text(r#"{"name": "n", "a": "1"}"#).unwrap();
    let req = create_request_from_value(&flat).unwrap();
    assert!(req.config.get("name").is_none());
    assert_eq!(req.config.len(), 1);
    let unnamed = parse_json_text(r#"{"config": {}}"#).unwrap();
    assert_eq!(create_request_from_value(&unnamed).err().as_deref(), Some("create payload must include name and config"));
    let list = parse_json_text("[]").unwrap();
    assert_eq!(create_request_from_value(&list).err().as_deref(), Some("create payload must be a JSON object"));
}

#[test]
fn edit_refused_unless_valid_or_forced() {
    let linter = ConnectorLinter::with_config(LinterConfig::new());
    let bad = page_input(r#"{"tasks.max": 0}"#);
    let refusal = edit_refusal(&linter, bad, "demo", None);
    assert!(refusal.is_some());
    let bad = page_input(r#"{"tasks.max": 0}"#);
    assert!(edit_refusal(&linter, bad, "demo", Some("1")).is_none());
    let good = page_input(r#"{"connector.class": "c"}"#);
    assert!(edit_refusal(&linter, good, "demo", None).is_none());
}

#[test]
fn app_state_reports_missing_url() {
    let state = AppState::new(ConnectionSettings::new());
    assert!(!state.has_connect_url());
    assert_eq!(state.cluster_name(), "my-connect-cluster");
    match state.require_connect_url() {
        Err(e) => assert_eq!(
            e.message(),
            "missing required option: --connect-url (or kafka.connect_url in secrets.toml)"
        ),
        Ok(_) => panic!("expected an error"),
    }
    let set = AppState::new(ConnectionSettings::new().merge_cli(Some("http://c:8083".to_string()), None, None));
    assert_eq!(set.require_connect_url().ok().as_deref(), Some("http://c:8083"));
    assert!(set.bootstrap_servers().is_none());
}

#[test]
fn ui_error_messages() {
    assert_eq!(UiError::Json { reason: "bad".to_string() }.message(), "cannot parse JSON: bad");
    assert_eq!(
        UiError::ConfigRequired.message(),
        "configuration is required; set --connect-url or kafka.connect_url in secrets.toml"
    );
    assert_eq!(UiError::Internal { reason: "x".to_string() }.message(), "internal error: x");
    assert_eq!(
        UiError::Read { path: "p".to_string(), reason: "r".to_string() }.message(),
        "cannot read p: r"
    );
}
