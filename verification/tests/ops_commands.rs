use strimzi_ops::document::parse_json_text;
use strimzi_ops::error::Error as CoreError;
use strimzi_ops::linter::config::LinterConfig;
use strimzi_ops::linter::engine::ConnectorLinter;
use strimzi_ops::lint_tool::Error as LintError;
use strimzi_ops::json::JsonValue;
use strimzi_ops::ops::cli::{ConnectorCommands, FormatArg};
use strimzi_ops::ops::connectors::{done_message, export_cluster};
use strimzi_ops::settings::ConnectionSettings;
use strimzi_ops::ops::error::Error as OpsError;
use strimzi_ops::ops::lint::{file_extension, lint_failed, lint_format, report_document, report_output};
use strimzi_ops::ops::payload::{config_map_from_payload, load_create_request, read_config_map};
use strimzi_ops::parse::ConfigFormat;
use strimzi_ops::validate::validate_config;

fn ops_object(text: &str) -> strimzi_ops::json::JsonObject {
    match parse_json_text(text) {
        Ok(JsonValue::Object(o)) => o,
        _ => panic!("not a JSON object"),
    }
}

#[test]
fn extensions_follow_path_rules() {
    assert_eq!(file_extension("dir/conn.yaml").as_deref(), Some("yaml"));
    assert_eq!(file_extension("conn.tar.json").as_deref(), Some("json"));
    assert_eq!(file_extension(".yaml"), None);
    assert_eq!(file_extension("noext"), None);
    assert_eq!(file_extension("a.d/file"), None);
    assert_eq!(file_extension("file."), Some(String::new()));
    assert_eq!(file_extension("dir/x.yml/"), Some("yml".to_string()));
    assert_eq!(file_extension("dir/.."), None);
    assert_eq!(file_extension("x.json/."), Some("json".to_string()));
}

#[test]
fn lint_format_prefers_the_option() {
    assert!(lint_format(FormatArg::Json, "c.yaml") == ConfigFormat::Json);
    assert!(lint_format(FormatArg::Auto, "c.YML") == ConfigFormat::Yaml);
    assert!(lint_format(FormatArg::Auto, "c.txt") == ConfigFormat::Auto);
    assert!(ConfigFormat::from(FormatArg::Yaml) == ConfigFormat::Yaml);
}

#[test]
fn lint_run_fails_on_errors_or_strict_warnings() {
    let linter = ConnectorLinter::with_config(LinterConfig::new());
    let warn_only = validate_config(&linter, ops_object(r#"{"name": "bad name", "connector.class": "c"}"#), None);
    assert!(!lint_failed(&warn_only, false));
    assert!(lint_failed(&warn_only, true));
    let invalid = validate_config(&linter, ops_object(r#"{"connector.class": "c"}"#), None);
    assert!(lint_failed(&invalid, false));
}

#[test]
fn json_report_lists_results_and_summary() {
    let linter = ConnectorLinter::with_config(LinterConfig::new());
    let report = validate_config(&linter, ops_object(r#"{"name": "ok", "connector.class": "c", "tasks.max": 0}"#), None);
    let doc = report_document(&report).to_compact();
    assert_eq!(
        doc,
        [
            r#"{"results":[{"message":"tasks.max must be at least 1","path":"tasks.max","rule_id":"tasks-max-value","severity":"error"},"#,
            r#"{"message":"Input should be greater than or equal to 1 for field tasks.max","path":"tasks.max","rule_id":"pydantic-schema","severity":"error"}],"#,
            r#""summary":{"errors":2,"info":0,"warnings":0},"valid":false}"#,
        ]
        .concat()
    );
}

#[test]
fn text_report_ends_with_summary() {
    let linter = ConnectorLinter::with_config(LinterConfig::new());
    let clean = validate_config(&linter, ops_object(r#"{"name": "ok", "connector.class": "c"}"#), None);
    assert_eq!(report_output(&clean), "\u{2705} No issues found\n\nSummary: 0 errors, 0 warnings, 0 info\n");
}

#[test]
fn payload_config_selection() {
    let nested_named = config_map_from_payload(ops_object(r#"{"name": "n", "config": {"a": 1}}"#));
    assert_eq!(nested_named.len(), 2);
    let nested = config_map_from_payload(ops_object(r#"{"config": {"a": 1}}"#));
    assert_eq!(JsonValue::Object(nested).to_compact(), r#"{"a":1}"#);
    let flat = config_map_from_payload(ops_object(r#"{"a": 1}"#));
    assert_eq!(flat.len(), 1);
}

#[test]
fn config_files_read_by_extension() {
    let map = read_config_map("c.yaml", "name: n\nconfig:\n  a: 1\n").unwrap();
    assert_eq!(map.len(), 2);
    match read_config_map("c.json", "name: n") {
        Err(CoreError::Parse { format, .. }) => assert_eq!(format, "json"),
        _ => panic!("expected a JSON parse error"),
    }
}

#[test]
fn create_request_from_files() {
    let req = load_create_request("c.json", r#"{"name": "n", "config": {"a": "1"}}"#).unwrap();
    assert_eq!(req.name, "n");
    let flat = load_create_request("c.json", r#"{"name": "n", "a": "1"}"#).unwrap();
    assert!(flat.config.get("name").is_none());
    match load_create_request("c.json", r#"{"a": "1"}"#) {
        Err(OpsError::JsonOutput { reason }) => assert_eq!(reason, "create payload must include name and config"),
        _ => panic!("expected a refusal"),
    }
    assert!(matches!(load_create_request("c.json", "{"), Err(OpsError::Core(CoreError::Parse { .. }))));
}

#[test]
fn command_line_error_messages() {
    assert_eq!(OpsError::JsonOutput { reason: "r".to_string() }.message(), "cannot serialise JSON output: r");
    assert_eq!(
        OpsError::Secrets { path: "s.toml".to_string(), reason: "bad".to_string() }.message(),
        "cannot load secrets from s.toml: bad"
    );
    assert_eq!(OpsError::MissingOption { option: "--x".to_string() }.message(), "missing required option: --x");
    assert_eq!(
        OpsError::from(CoreError::UnknownFormat { format: "xml".to_string() }).message(),
        "unknown configuration format 'xml'"
    );
    assert_eq!(LintError::Read { path: "f".to_string(), reason: "gone".to_string() }.message(), "cannot read f: gone");
    assert_eq!(
        LintError::from(CoreError::MonitorNotStarted).message(),
        "notification monitor is not started"
    );
}

#[test]
fn lifecycle_commands_report_what_they_did() {
    assert_eq!(
        done_message(&ConnectorCommands::Pause { name: "demo".to_string() }).as_deref(),
        Some("Paused connector: demo")
    );
    assert_eq!(
        done_message(&ConnectorCommands::RestartTask { name: "demo".to_string(), task_id: 2 }).as_deref(),
        Some("Restarted task 2 for connector: demo")
    );
    assert_eq!(
        done_message(&ConnectorCommands::Delete { name: "d".to_string() }).as_deref(),
        Some("Deleted connector: d")
    );
    assert!(done_message(&ConnectorCommands::List).is_none());
    let settings = ConnectionSettings::new();
    assert_eq!(export_cluster(Some("prod"), &settings), "prod");
    assert_eq!(export_cluster(None, &settings), "my-connect-cluster");
}
