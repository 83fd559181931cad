use strimzi_ops::document::parse_json_text;
use strimzi_ops::json::{JsonObject, JsonValue};
use strimzi_ops::schema::validate_schema;

fn schema_config(text: &str) -> JsonObject {
    match parse_json_text(text) {
        Ok(JsonValue::Object(o)) => o,
        _ => panic!("not a JSON object"),
    }
}

#[test]
fn postgres_requires_database_fields() {
    let config = schema_config(
        r#"{"name": "test-postgres", "connector.class": "io.debezium.connector.postgresql.PostgresConnector"}"#,
    );
    let results = validate_schema(&config);
    assert!(results.iter().any(|r| r.path.as_deref() == Some("database.hostname")));
}

#[test]
fn invalid_snapshot_mode_errors() {
    let config = schema_config(
        r#"{"name": "test-postgres", "connector.class": "io.debezium.connector.postgresql.PostgresConnector",
            "database.hostname": "localhost", "database.user": "postgres", "database.password": "password",
            "database.dbname": "test_db", "topic.prefix": "test_prefix", "snapshot.mode": "invalid_mode"}"#,
    );
    let results = validate_schema(&config);
    assert!(results.iter().any(|r| r.path.as_deref() == Some("snapshot.mode")));
}

#[test]
fn empty_string_fields_are_accepted() {
    let config = schema_config(
        r#"{"name": "", "connector.class": "io.debezium.connector.postgresql.PostgresConnector",
            "database.hostname": "localhost", "database.user": "postgres", "database.password": "password",
            "database.dbname": "test_db", "topic.prefix": "test_prefix"}"#,
    );
    let results = validate_schema(&config);
    assert!(!results.iter().any(|r| r.path.as_deref() == Some("name")));
}

#[test]
fn schema_messages_name_the_field() {
    let results = validate_schema(&schema_config(r#"{"name": 3, "tasks.max": 0}"#));
    let messages: Vec<&str> = results.iter().map(|r| r.message.as_str()).collect();
    assert_eq!(
        messages,
        vec![
            "Input should be a valid string for field name",
            "Field required for field connector.class",
            "Input should be greater than or equal to 1 for field tasks.max",
        ]
    );
    assert!(results.iter().all(|r| r.rule_id == "pydantic-schema"));
}

#[test]
fn iceberg_requires_topics_and_warehouse() {
    let results = validate_schema(&schema_config(
        r#"{"name": "i", "connector.class": "org.apache.iceberg.connect.IcebergSinkConnector"}"#,
    ));
    let paths: Vec<Option<&str>> = results.iter().map(|r| r.path.as_deref()).collect();
    assert_eq!(paths, vec![Some("topics"), Some("iceberg.catalog.warehouse")]);
}
