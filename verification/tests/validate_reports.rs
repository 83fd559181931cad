use strimzi_ops::document::parse_json_text;
use strimzi_ops::json::{JsonObject, JsonValue};
use strimzi_ops::linter::config::LinterConfig;
use strimzi_ops::linter::engine::ConnectorLinter;
use strimzi_ops::parse::ConfigFormat;
use strimzi_ops::validate::{validate_config, validate_text};

fn report_config(text: &str) -> JsonObject {
    match parse_json_text(text) {
        Ok(JsonValue::Object(o)) => o,
        _ => panic!("not a JSON object"),
    }
}

fn default_linter() -> ConnectorLinter {
    ConnectorLinter::with_config(LinterConfig::new())
}

const POSTGRES_FIELDS: &str = r#""database.hostname": "localhost", "database.user": "postgres",
    "database.password": "password", "database.dbname": "test_db", "topic.prefix": "test_prefix""#;

#[test]
fn valid_postgres_connector() {
    let config = report_config(&format!(
        r#"{{"name": "test-postgres", "connector.class": "io.debezium.connector.postgresql.PostgresConnector",
            "tasks.max": "1", "database.port": "5432", {POSTGRES_FIELDS}}}"#
    ));
    let report = validate_config(&default_linter(), config, None);
    assert!(report.valid);
    assert_eq!(report.summary.errors, 0);
}

#[test]
fn missing_postgres_fields_invalid() {
    let config = report_config(
        r#"{"name": "test-postgres", "connector.class": "io.debezium.connector.postgresql.PostgresConnector"}"#,
    );
    let report = validate_config(&default_linter(), config, None);
    assert!(!report.valid);
    assert!(report.results.iter().any(|r| r.rule_id == "pydantic-schema"));
}

#[test]
fn connect_api_config_without_name() {
    let text = format!(
        r#"{{"connector.class": "io.debezium.connector.postgresql.PostgresConnector", "tasks.max": "1", {POSTGRES_FIELDS}}}"#
    );
    let missing = validate_config(&default_linter(), report_config(&text), None);
    assert!(!missing.valid);
    let with_name = validate_config(&default_linter(), report_config(&text), Some("test-postgres"));
    assert!(with_name.valid);
}

#[test]
fn valid_iceberg_connector() {
    let config = report_config(
        r#"{"name": "test-iceberg", "connector.class": "org.apache.iceberg.connect.IcebergSinkConnector",
            "topics": "topic1,topic2", "iceberg.catalog.warehouse": "s3://bucket/warehouse"}"#,
    );
    let report = validate_config(&default_linter(), config, None);
    assert!(report.valid);
}

#[test]
fn invalid_tasks_max() {
    let config = report_config(&format!(
        r#"{{"name": "test-postgres", "connector.class": "io.debezium.connector.postgresql.PostgresConnector",
            "tasks.max": "0", {POSTGRES_FIELDS}}}"#
    ));
    let report = validate_config(&default_linter(), config, None);
    assert!(!report.valid);
    assert!(report
        .results
        .iter()
        .any(|r| r.rule_id == "pydantic-schema" && r.path.as_deref() == Some("tasks.max")));
}

#[test]
fn invalid_snapshot_mode() {
    let config = report_config(&format!(
        r#"{{"name": "test-postgres", "connector.class": "io.debezium.connector.postgresql.PostgresConnector",
            "tasks.max": "1", "snapshot.mode": "invalid_mode", {POSTGRES_FIELDS}}}"#
    ));
    let report = validate_config(&default_linter(), config, None);
    assert!(!report.valid);
    assert!(report
        .results
        .iter()
        .any(|r| r.rule_id == "pydantic-schema" && r.message.contains("snapshot.mode")));
}

#[test]
fn report_valid_exactly_without_errors() {
    let report = validate_config(&default_linter(), report_config(r#"{"name": "x y", "connector.class": "c"}"#), None);
    assert!(report.valid);
    assert_eq!(report.summary.warnings, 1);
    assert_eq!(report.summary.errors + report.summary.warnings + report.summary.info, report.results.len());
}

#[test]
fn validate_text_honours_directives_and_errors() {
    let linter = default_linter();
    let report = validate_text(
        &linter,
        "# lint-disable: naming-convention\nname: bad name\nconnector.class: c\n",
        ConfigFormat::Auto,
        None,
    )
    .unwrap();
    assert!(report.results.iter().all(|r| r.rule_id != "naming-convention"));
    assert!(validate_text(&linter, "[1]", ConfigFormat::Json, None).is_err());
}

#[test]
fn supplied_name_clears_only_the_name_findings() {
    let text = r#"{"connector.class": "io.debezium.connector.postgresql.PostgresConnector", "tasks.max": "0"}"#;
    let missing = validate_config(&default_linter(), report_config(text), None);
    assert!(!missing.valid);
    assert!(missing.results.iter().any(|r| r.path.as_deref() == Some("name")));
    let named = validate_config(&default_linter(), report_config(text), Some("pg"));
    assert!(!named.valid);
    assert!(!named.results.iter().any(|r| r.path.as_deref() == Some("name")));
    let others = |rs: &Vec<strimzi_ops::linter::types::LintResult>| {
        rs.iter().filter(|r| r.path.as_deref() != Some("name")).map(|r| r.message.clone()).collect::<Vec<_>>()
    };
    assert_eq!(others(&missing.results), others(&named.results));
}

#[test]
fn name_is_the_only_error_so_supplying_it_validates() {
    let text = format!(
        r#"{{"connector.class": "io.debezium.connector.postgresql.PostgresConnector", "tasks.max": "12", {POSTGRES_FIELDS}}}"#
    );
    let missing = validate_config(&default_linter(), report_config(&text), None);
    assert!(!missing.valid);
    assert!(missing
        .results
        .iter()
        .filter(|r| r.severity == strimzi_ops::linter::types::Severity::Error)
        .all(|r| r.path.as_deref() == Some("name")));
    let named = validate_config(&default_linter(), report_config(&text), Some("pg_main-1"));
    assert!(named.valid);
    assert!(named.summary.warnings > 0);
}
