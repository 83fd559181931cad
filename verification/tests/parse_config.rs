use strimzi_ops::document::parse_json_text;
use strimzi_ops::error::Error;
use strimzi_ops::json::{JsonObject, JsonValue};
use strimzi_ops::parse::{format_label, parse_config_text, with_name, ConfigFormat};

#[test]
fn parses_yaml_connector() {
    let text = "name: demo\nconnector.class: foo.Bar\n";
    let map = parse_config_text(text, ConfigFormat::Yaml).unwrap();
    assert_eq!(map.get("name").and_then(|v| v.as_str()).map(|s| s.as_str()), Some("demo"));
}

#[test]
fn injects_connector_name() {
    let mut map = JsonObject::new();
    map.insert("connector.class".to_owned(), JsonValue::String("foo.Bar".to_owned()));
    let map = with_name(map, Some("injected"));
    assert_eq!(map.get("name").and_then(|v| v.as_str()).map(|s| s.as_str()), Some("injected"));
}

#[test]
fn existing_name_is_kept() {
    let map = match parse_json_text(r#"{"name": "mine"}"#) {
        Ok(JsonValue::Object(o)) => o,
        _ => panic!(),
    };
    let map = with_name(map, Some("other"));
    assert_eq!(map.get("name").and_then(|v| v.as_str()).map(|s| s.as_str()), Some("mine"));
    let twice = with_name(with_name(JsonObject::new(), Some("a")), Some("b"));
    assert_eq!(twice.get("name").and_then(|v| v.as_str()).map(|s| s.as_str()), Some("a"));
}

#[test]
fn auto_reads_json_then_yaml() {
    let json = parse_config_text(r#"{"a": 1}"#, ConfigFormat::Auto).unwrap();
    assert_eq!(json.len(), 1);
    let yaml = parse_config_text("a: 1\nb: two\n", ConfigFormat::Auto).unwrap();
    assert_eq!(yaml.len(), 2);
}

#[test]
fn top_level_must_be_an_object() {
    match parse_config_text("[1, 2]", ConfigFormat::Json) {
        Err(Error::Parse { format, reason }) => {
            assert_eq!(format, "json");
            assert_eq!(reason, "top-level value must be a mapping/object");
        }
        _ => panic!("expected a parse error"),
    }
    match parse_config_text("- 1\n- 2\n", ConfigFormat::Auto) {
        Err(Error::Parse { format, .. }) => assert_eq!(format, "json or yaml"),
        _ => panic!("expected a parse error"),
    }
}

#[test]
fn bad_text_reports_the_format() {
    match parse_config_text("{", ConfigFormat::Json) {
        Err(Error::Parse { format, reason }) => {
            assert_eq!(format, "json");
            assert!(!reason.is_empty());
        }
        _ => panic!("expected a parse error"),
    }
    match parse_config_text("a: [", ConfigFormat::Yaml) {
        Err(Error::Parse { format, .. }) => assert_eq!(format, "yaml"),
        _ => panic!("expected a parse error"),
    }
}

#[test]
fn format_names_and_extensions() {
    assert!(ConfigFormat::parse("YML").unwrap() == ConfigFormat::Yaml);
    assert!(ConfigFormat::parse("Json").unwrap() == ConfigFormat::Json);
    match ConfigFormat::parse("XML") {
        Err(Error::UnknownFormat { format }) => assert_eq!(format, "xml"),
        _ => panic!("expected an unknown format"),
    }
    assert!(ConfigFormat::from_extension(Some("YAML")) == ConfigFormat::Yaml);
    assert!(ConfigFormat::from_extension(Some("txt")) == ConfigFormat::Auto);
    assert!(ConfigFormat::from_extension(None) == ConfigFormat::Auto);
    assert_eq!(format_label(ConfigFormat::Auto), "json or yaml");
}
