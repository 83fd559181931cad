use strimzi_ops::control::yaml::{escape_yaml_double_quoted, sort_string_vec, to_strimzi_yaml};
use strimzi_ops::document::parse_json_text;
use strimzi_ops::json::{JsonObject, JsonValue};

fn yaml_config(text: &str) -> JsonObject {
    match parse_json_text(text) {
        Ok(JsonValue::Object(o)) => o,
        _ => panic!("not a JSON object"),
    }
}

#[test]
fn exports_sorted_config_fields() {
    let config = yaml_config(
        r#"{"connector.class": "io.demo.Source", "tasks.max": "2", "topic": "events", "database.port": 5432}"#,
    );
    let yaml = to_strimzi_yaml("demo", &config, "my-connect-cluster");
    assert!(yaml.contains("name: demo"));
    assert!(yaml.contains("class: io.demo.Source"));
    assert!(yaml.contains("tasksMax: 2"));
    assert!(yaml.contains("    database.port: 5432"));
    assert!(yaml.contains("    topic: \"events\""));
    let topic_pos = yaml.find("topic:").expect("topic");
    let port_pos = yaml.find("database.port:").expect("port");
    assert!(port_pos < topic_pos);
}

#[test]
fn escapes_special_characters_in_string_values() {
    let config = yaml_config(r#"{"query": "select \"id\" from t\nwhere a\\b"}"#);
    let yaml = to_strimzi_yaml("demo", &config, "cluster");
    assert!(yaml.contains("    query: \"select \\\"id\\\" from t\\nwhere a\\\\b\""));
}

#[test]
fn yaml_document_has_exact_header_and_defaults() {
    let config = yaml_config(r#"{"flag": true}"#);
    let yaml = to_strimzi_yaml("demo", &config, "cluster");
    assert_eq!(
        yaml,
        "apiVersion: kafka.strimzi.io/v1beta2\nkind: KafkaConnector\nmetadata:\n  name: demo\n  labels:\n    strimzi.io/cluster: cluster\nspec:\n  class: unknown\n  tasksMax: 1\n  config:\n    flag: true"
    );
}

#[test]
fn numeric_tasks_max_is_printed_as_number() {
    let config = yaml_config(r#"{"tasks.max": 3, "connector.class": 7}"#);
    let yaml = to_strimzi_yaml("n", &config, "c");
    assert!(yaml.contains("  tasksMax: 3"));
    assert!(yaml.contains("  class: unknown"));
}

#[test]
fn yaml_escaping_of_control_characters() {
    assert_eq!(escape_yaml_double_quoted("a\tb\rc\"d\\"), "a\\tb\\rc\\\"d\\\\");
}

#[test]
fn strings_sort_ascending() {
    let sorted = sort_string_vec(vec!["b".to_string(), "a".to_string(), "ab".to_string(), "A".to_string()]);
    assert_eq!(sorted, vec!["A", "a", "ab", "b"]);
}
