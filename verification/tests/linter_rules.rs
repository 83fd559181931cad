use strimzi_ops::assoc::StringSet;
use strimzi_ops::document::parse_json_text;
use strimzi_ops::json::{JsonObject, JsonValue};
use strimzi_ops::linter::config::{LinterConfig, RawLinterConfig};
use strimzi_ops::linter::directives::{parse_lint_directives, rules_in_captures};
use strimzi_ops::linter::engine::ConnectorLinter;
use strimzi_ops::linter::rules::builtin_rules;
use strimzi_ops::linter::types::{LintResult, Severity, Summary};
use strimzi_ops::parse::ConfigFormat;

fn rules_config(text: &str) -> JsonObject {
    match parse_json_text(text) {
        Ok(JsonValue::Object(o)) => o,
        _ => panic!("not a JSON object"),
    }
}

fn rule_results(id: &str, config: &JsonObject) -> Vec<LintResult> {
    let rules = builtin_rules();
    let rule = rules.iter().find(|r| r.id == id).expect("rule");
    rule.check(config)
}

#[test]
fn parses_disabled_rules_and_exemptions() {
    let config = LinterConfig::from_raw(RawLinterConfig {
        disabled_rules: vec!["sensitive-data".to_string()],
        rule_severities: vec![("naming-convention".to_string(), "info".to_string())],
        connector_exemptions: vec![("legacy".to_string(), vec!["naming-convention".to_string()])],
    })
    .unwrap();

    assert!(config.disabled_rules.contains("sensitive-data"));
    assert!(config.severity_for("naming-convention", Severity::Warning) == Severity::Info);
    assert!(!config.is_rule_enabled("naming-convention", Some("legacy")));
    assert!(config.is_rule_enabled("naming-convention", Some("other")));
}

#[test]
fn invalid_severity_is_refused() {
    let err = LinterConfig::from_raw(RawLinterConfig {
        disabled_rules: vec![],
        rule_severities: vec![("naming-convention".to_string(), "loud".to_string())],
        connector_exemptions: vec![],
    })
    .err()
    .expect("refused");
    assert_eq!(
        err,
        "invalid severity 'loud' for rule 'naming-convention' (expected error, warning, or info)"
    );
}

#[test]
fn toml_errors_are_prefixed() {
    let err = LinterConfig::from_toml_outcome(Err("expected `=`".to_string())).err().expect("refused");
    assert_eq!(err, "invalid TOML: expected `=`");
    let ok = LinterConfig::from_toml_outcome(Ok(RawLinterConfig {
        disabled_rules: vec!["a".to_string()],
        rule_severities: vec![],
        connector_exemptions: vec![],
    }))
    .unwrap();
    assert!(!ok.is_rule_enabled("a", None));
}

#[test]
fn parses_comma_separated_directives() {
    let text = "# lint-disable: naming-convention, sensitive-data\nname: x\n";
    let disabled = parse_lint_directives(text);
    assert!(disabled.contains("naming-convention"));
    assert!(disabled.contains("sensitive-data"));
}

#[test]
fn directive_without_colon_and_file_form() {
    let disabled = parse_lint_directives("#LINT-DISABLE-FILE tasks-max-value\n");
    assert!(disabled.contains("tasks-max-value"));
    assert!(!parse_lint_directives("name: x\n").contains("tasks-max-value"));
}

#[test]
fn required_fields_detect_missing_name() {
    let config = rules_config(r#"{"connector.class": "io.debezium.connector.postgresql.PostgresConnector"}"#);
    let results = rule_results("required-field", &config);
    assert_eq!(results.len(), 1);
    assert_eq!(results[0].path.as_deref(), Some("name"));
}

#[test]
fn tasks_max_rejects_zero() {
    let config = rules_config(r#"{"tasks.max": "0"}"#);
    let results = rule_results("tasks-max-value", &config);
    assert!(results[0].severity == Severity::Error);
}

#[test]
fn tasks_max_warns_when_high_and_refuses_text() {
    let high = rule_results("tasks-max-value", &rules_config(r#"{"tasks.max": 12}"#));
    assert!(high[0].severity == Severity::Warning);
    assert_eq!(high[0].message, "tasks.max is 12, which may be too high");
    let text = rule_results("tasks-max-value", &rules_config(r#"{"tasks.max": "many"}"#));
    assert_eq!(text[0].message, "tasks.max must be a valid integer");
    assert!(rule_results("tasks-max-value", &rules_config(r#"{"tasks.max": 4}"#)).is_empty());
}

#[test]
fn naming_convention_flags_characters_and_length() {
    let bad = rule_results("naming-convention", &rules_config(r#"{"name": "bad name!"}"#));
    assert_eq!(bad.len(), 1);
    assert_eq!(bad[0].message, "Connector name 'bad name!' contains invalid characters");
    let long_name = "a".repeat(65);
    let long = rule_results("naming-convention", &rules_config(&format!(r#"{{"name": "{long_name}"}}"#)));
    assert_eq!(long.len(), 1);
    assert!(long[0].message.ends_with("is too long (max 64 characters)"));
    assert!(rule_results("naming-convention", &rules_config(r#"{"name": "ok-name_1"}"#)).is_empty());
}

#[test]
fn snapshot_mode_checked_only_for_debezium() {
    let found = rule_results(
        "debezium-snapshot-mode",
        &rules_config(r#"{"connector.class": "io.Debezium.X", "snapshot.mode": "sometimes"}"#),
    );
    assert_eq!(
        found[0].message,
        "Unknown snapshot.mode 'sometimes'. Valid: initial, always, never, when_needed, schema_only"
    );
    assert!(rule_results(
        "debezium-snapshot-mode",
        &rules_config(r#"{"connector.class": "other", "snapshot.mode": "sometimes"}"#)
    )
    .is_empty());
}

#[test]
fn sensitive_data_ignores_placeholders() {
    let found = rule_results(
        "sensitive-data",
        &rules_config(
            r#"{"database.password": "hunter2", "api.key": "${env:VAR}", "token": "REPLACE_ME", "secret": ""}"#,
        ),
    );
    assert_eq!(found.len(), 1);
    assert_eq!(found[0].path.as_deref(), Some("database.password"));
}

#[test]
fn inline_directive_silences_rule() {
    let linter = ConnectorLinter::with_config(LinterConfig::new());
    let text = "# lint-disable: sensitive-data\nname: demo\nconnector.class: x\ndatabase.password: hunter2\n";
    let results = linter.lint_text(text, ConfigFormat::Yaml).unwrap();
    assert!(results.iter().all(|r| r.rule_id != "sensitive-data"));
    let loud = linter
        .lint_text("name: demo\nconnector.class: x\ndatabase.password: hunter2\n", ConfigFormat::Yaml)
        .unwrap();
    assert!(loud.iter().any(|r| r.rule_id == "sensitive-data"));
}

#[test]
fn severity_override_applies() {
    let mut config = LinterConfig::new();
    config.rule_severities.push(("sensitive-data".to_string(), Severity::Error));
    let linter = ConnectorLinter::with_config(config);
    let cfg = rules_config(r#"{"name": "d", "connector.class": "x", "password": "p"}"#);
    let results = linter.lint(&cfg, &StringSet::new());
    assert!(results.iter().any(|r| r.rule_id == "sensitive-data" && r.severity == Severity::Error));
}

#[test]
fn findings_are_formatted_by_severity_then_rule() {
    let results = vec![
        LintResult::new("b-rule", Severity::Warning, "w".to_string(), None),
        LintResult::new("a-rule", Severity::Info, "i".to_string(), Some("p")),
        LintResult::new("c-rule", Severity::Error, "e".to_string(), None),
    ];
    let text = ConnectorLinter::format_results(&results);
    assert_eq!(
        text,
        "\u{2139}\u{fe0f}  [a-rule] i at p\n\u{26a0}\u{fe0f}  [b-rule] w\n\u{274c} [c-rule] e\n\nSummary: 1 errors, 1 warnings, 1 info"
    );
    assert_eq!(ConnectorLinter::format_results(&[]), "\u{2705} No issues found");
}

#[test]
fn summary_counts_every_finding_once() {
    let results = vec![
        LintResult::new("a", Severity::Warning, "w".to_string(), None),
        LintResult::new("b", Severity::Warning, "w".to_string(), None),
        LintResult::new("c", Severity::Error, "e".to_string(), None),
    ];
    let s = Summary::from_results(&results);
    assert_eq!((s.errors, s.warnings, s.info), (1, 2, 0));
    assert_eq!(s.errors + s.warnings + s.info, results.len());
}

#[test]
fn severity_names_round_trip() {
    for s in [Severity::Error, Severity::Warning, Severity::Info] {
        assert!(Severity::parse(s.as_str()) == Some(s));
    }
    assert!(Severity::parse("WARNING") == Some(Severity::Warning));
    assert!(Severity::parse("loud").is_none());
}

#[test]
fn disabled_rule_and_exemption_silence_findings() {
    let mut config = LinterConfig::new();
    config.disabled_rules.insert("required-field".to_string());
    let linter = ConnectorLinter::with_config(config);
    let results = linter.lint(&rules_config(r#"{"tasks.max": 0}"#), &StringSet::new());
    assert!(results.iter().all(|r| r.rule_id != "required-field"));
    assert!(results.iter().any(|r| r.rule_id == "tasks-max-value"));
}

#[test]
fn captured_lists_name_rules() {
    let caps = vec![
        Some(" naming-convention , ,sensitive-data".to_string()),
        None,
        Some("tasks-max-value".to_string()),
    ];
    let rules = rules_in_captures(&caps);
    assert!(rules.contains("naming-convention"));
    assert!(rules.contains("sensitive-data"));
    assert!(rules.contains("tasks-max-value"));
    assert!(!rules.contains(""));
    assert_eq!(rules.items.len(), 3);
    assert!(rules_in_captures(&vec![None, Some(" , ".to_string())]).items.is_empty());
}

#[test]
fn repeated_keys_keep_one_entry() {
    let config = LinterConfig::from_raw(RawLinterConfig {
        disabled_rules: vec![],
        rule_severities: vec![
            ("naming-convention".to_string(), "info".to_string()),
            ("naming-convention".to_string(), "error".to_string()),
        ],
        connector_exemptions: vec![
            ("legacy".to_string(), vec!["naming-convention".to_string()]),
            ("legacy".to_string(), vec!["sensitive-data".to_string()]),
        ],
    })
    .unwrap();
    assert_eq!(config.rule_severities.len(), 1);
    assert!(config.severity_for("naming-convention", Severity::Warning) == Severity::Error);
    assert_eq!(config.connector_exemptions.len(), 1);
    assert!(config.is_rule_enabled("naming-convention", Some("legacy")));
    assert!(!config.is_rule_enabled("sensitive-data", Some("legacy")));
}
