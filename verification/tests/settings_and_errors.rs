use strimzi_ops::error::Error;
use strimzi_ops::settings::{load_settings, ConnectionSettings};

#[test]
fn secrets_file_gives_kafka_settings() {
    let s = ConnectionSettings::from_secrets_text(
        "secrets.toml",
        "[kafka]\nconnect_url = \"http://c:8083\"\nbootstrap_servers = \"k:9092\"\nconnect_cluster_name = 7\n",
    )
    .unwrap();
    assert_eq!(s.connect_url.as_deref(), Some("http://c:8083"));
    assert_eq!(s.bootstrap_servers.as_deref(), Some("k:9092"));
    assert_eq!(s.connect_cluster_name, None);
    assert_eq!(s.cluster_name(), "my-connect-cluster");
}

#[test]
fn broken_secrets_file_is_refused() {
    match ConnectionSettings::from_secrets_text("secrets.toml", "[kafka\n") {
        Err(Error::Secrets { path, reason }) => {
            assert_eq!(path, "secrets.toml");
            assert!(!reason.is_empty());
        }
        _ => panic!("expected a secrets error"),
    }
}

#[test]
fn command_line_overrides_file() {
    let file = ConnectionSettings::from_secrets_text(
        "s",
        "[kafka]\nconnect_url = \"http://file\"\nbootstrap_servers = \"file:9092\"\n",
    )
    .unwrap();
    let s = load_settings(Some(file), Some("http://cli".to_string()), None, Some("prod".to_string()));
    assert_eq!(s.connect_url.as_deref(), Some("http://cli"));
    assert_eq!(s.bootstrap_servers.as_deref(), Some("file:9092"));
    assert_eq!(s.cluster_name(), "prod");
    let none = load_settings(None, None, None, None);
    assert!(none.connect_url.is_none());
}

#[test]
fn missing_options_are_named() {
    let s = ConnectionSettings::new();
    match s.require_bootstrap_servers() {
        Err(e) => assert_eq!(
            e.message(),
            "missing required option: --bootstrap-servers (or kafka.bootstrap_servers in secrets.toml)"
        ),
        Ok(_) => panic!("expected an error"),
    }
    assert!(s.require_connect_url().is_err());
}

#[test]
fn core_error_messages() {
    assert_eq!(
        Error::Parse { format: "yaml".to_string(), reason: "r".to_string() }.message(),
        "cannot parse configuration as yaml: r"
    );
    assert_eq!(
        Error::LinterConfig { path: ".lintrc.toml".to_string(), reason: "r".to_string() }.message(),
        "cannot load linter config from .lintrc.toml: r"
    );
    assert_eq!(Error::Kubectl { reason: "r".to_string() }.message(), "cannot run kubectl: r");
    assert_eq!(Error::Kafka { reason: "r".to_string() }.message(), "kafka error: r");
    assert_eq!(
        Error::BootstrapServersRequired.message(),
        "bootstrap servers are required for Kafka signaling"
    );
    assert_eq!(
        Error::InvalidConnectUrl { url: "u".to_string(), reason: "r".to_string() }.message(),
        "invalid Kafka Connect URL u: r"
    );
    assert_eq!(
        Error::ConnectHttp { method: "GET".to_string(), path: "/".to_string(), reason: "r".to_string() }.message(),
        "Kafka Connect request GET / failed: r"
    );
    assert_eq!(Error::Read { path: "p".to_string(), reason: "r".to_string() }.message(), "cannot read p: r");
}
