use strimzi_ops::control::snapshot::{
    signal_payload, signal_topic_from_config, table_list, trigger_step, SnapshotRequest, TriggerAction,
    TriggerEvent, TriggerStage,
};
use strimzi_ops::document::parse_json_text;
use strimzi_ops::error::Error;
use strimzi_ops::json::{JsonObject, JsonValue};

fn trigger_config(text: &str) -> JsonObject {
    match parse_json_text(text) {
        Ok(JsonValue::Object(o)) => o,
        _ => panic!("not a JSON object"),
    }
}

fn demo_request(bootstrap: Option<&str>, tables: Option<Vec<String>>) -> SnapshotRequest {
    SnapshotRequest {
        connector_name: "demo".to_string(),
        snapshot_type: "incremental".to_string(),
        tables,
        bootstrap_servers: bootstrap.map(|b| b.to_string()),
    }
}

#[test]
fn fallback_restarts_task_when_kafka_unavailable() {
    // No bootstrap servers: the signal path fails and task 0 is restarted.
    let request = demo_request(None, None);
    let (stage, action) = trigger_step(&request, TriggerStage::Start, TriggerEvent::Begin);
    match action {
        TriggerAction::FetchConfig { connector_name } => assert_eq!(connector_name, "demo"),
        _ => panic!("expected a config fetch"),
    }
    let config = trigger_config(
        r#"{"connector.class": "io.debezium.connector.postgresql.PostgresConnector", "signal.kafka.topic": "signals"}"#,
    );
    let (stage, action) = trigger_step(&request, stage, TriggerEvent::ConfigReceived(config));
    match action {
        TriggerAction::RestartTask { connector_name, task_id } => {
            assert_eq!(connector_name, "demo");
            assert_eq!(task_id, 0);
        }
        _ => panic!("expected a task restart"),
    }
    let (_, action) = trigger_step(&request, stage, TriggerEvent::Succeeded);
    let result = match action {
        TriggerAction::Finish(Ok(result)) => result,
        _ => panic!("expected a result"),
    };
    assert_eq!(result.status, "fallback");
    assert!(result.message.contains("Restarted Task 0"));
}

#[test]
fn signal_goes_to_configured_topic() {
    let request = demo_request(Some("kafka:9092"), Some(vec!["public.users".to_string()]));
    let (stage, _) = trigger_step(&request, TriggerStage::Start, TriggerEvent::Begin);
    let config = trigger_config(r#"{"signal.kafka.topic": "signals"}"#);
    let (stage, action) = trigger_step(&request, stage, TriggerEvent::ConfigReceived(config));
    match &action {
        TriggerAction::SendSignal { bootstrap_servers, topic, key, payload } => {
            assert_eq!(bootstrap_servers, "kafka:9092");
            assert_eq!(topic, "signals");
            assert_eq!(key, "demo");
            let text = payload.to_compact();
            assert!(text.contains(r#""data-collections":["public.users"]"#));
            assert!(text.contains(r#""type":"execute-snapshot""#));
        }
        _ => panic!("expected a signal"),
    }
    let (_, action) = trigger_step(&request, stage, TriggerEvent::Succeeded);
    match action {
        TriggerAction::Finish(Ok(result)) => {
            assert_eq!(result.status, "success");
            assert_eq!(result.message, "Signal sent to signals");
            assert!(result.signal_id.is_some());
        }
        _ => panic!("expected success"),
    }
}

#[test]
fn failed_signal_falls_back_and_failed_restart_fails() {
    let request = demo_request(Some("kafka:9092"), None);
    let (stage, _) = trigger_step(&request, TriggerStage::Start, TriggerEvent::Begin);
    let (stage, _) = trigger_step(&request, stage, TriggerEvent::ConfigReceived(JsonObject::new()));
    let (stage, action) =
        trigger_step(&request, stage, TriggerEvent::Failed(Error::Kafka { reason: "down".to_string() }));
    assert!(matches!(action, TriggerAction::RestartTask { task_id: 0, .. }));
    let (_, action) = trigger_step(&request, stage, TriggerEvent::Failed(Error::MonitorNotStarted));
    assert!(matches!(action, TriggerAction::Finish(Err(Error::MonitorNotStarted))));
}

#[test]
fn default_signal_topic_and_all_tables() {
    assert_eq!(signal_topic_from_config(&JsonObject::new()), "debezium.signals");
    let payload = signal_payload("id-1", None, "blocking").to_compact();
    assert_eq!(
        payload,
        r#"{"data":{"data-collections":["*"],"type":"blocking"},"id":"id-1","type":"execute-snapshot"}"#
    );
    let empty: Vec<String> = Vec::new();
    assert!(signal_payload("id-2", Some(&empty), "incremental").to_compact().contains(r#"["*"]"#));
}

#[test]
fn table_list_trims_and_drops_empty() {
    assert_eq!(table_list(" a , ,b,, c "), vec!["a", "b", "c"]);
    assert!(table_list(" , ").is_empty());
}

#[test]
fn signal_id_is_a_version_4_uuid() {
    let request = demo_request(Some("kafka:9092"), None);
    let (stage, _) = trigger_step(&request, TriggerStage::Start, TriggerEvent::Begin);
    let (stage, _) = trigger_step(&request, stage, TriggerEvent::ConfigReceived(JsonObject::new()));
    let id = match stage {
        TriggerStage::Signalling { signal_id, .. } => signal_id,
        _ => panic!("expected a signal"),
    };
    let chars: Vec<char> = id.chars().collect();
    assert_eq!(chars.len(), 36);
    for (i, c) in chars.iter().enumerate() {
        if [8, 13, 18, 23].contains(&i) {
            assert_eq!(*c, '-');
        } else {
            assert!(c.is_ascii_hexdigit() && !c.is_ascii_uppercase());
        }
    }
    assert_eq!(chars[14], '4');
    assert!(['8', '9', 'a', 'b'].contains(&chars[19]));
}
