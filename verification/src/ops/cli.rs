//! The commands and options of `strimzi-ops` and `strimzi-lint`.
use vstd::prelude::*;
use crate::parse::ConfigFormat;

verus! {

/// `strimzi-ops`: global connection options and a command.
pub struct Cli {
    /// Path to `secrets.toml`.
    pub secrets: Option<String>,
    /// Kafka Connect REST API URL.
    pub connect_url: Option<String>,
    /// Kafka bootstrap servers.
    pub bootstrap_servers: Option<String>,
    /// Strimzi `KafkaConnect` cluster name (for YAML export).
    pub cluster_name: Option<String>,
    pub command: Commands,
}

/// `strimzi-lint`: only the lint command.
pub struct LintCli {
    pub command: LintOnlyCommand,
}

/// The command of `strimzi-lint`.
pub enum LintOnlyCommand {
    /// Lint a connector configuration file.
    Lint { file: String, config: Option<String>, format: FormatArg, json_output: bool, strict: bool },
}

/// The commands of `strimzi-ops`.
pub enum Commands {
    /// Lint a connector configuration file.
    Lint { file: String, config: Option<String>, format: FormatArg, json_output: bool, strict: bool },
    /// Manage Kafka Connect connectors.
    Connectors { command: ConnectorCommands },
    /// Kafka Connect cluster metadata.
    Cluster { command: ClusterCommands },
    /// Trigger Debezium snapshots.
    Snapshot { command: SnapshotCommands },
    /// Monitor Debezium notification topics.
    Monitor { topic: String, group_id: String, duration_secs: Option<u64>, json_output: bool },
}

/// Connector management commands.
pub enum ConnectorCommands {
    List,
    Status { name: Option<String> },
    Info { name: String },
    Config { name: String },
    Pause { name: String },
    Resume { name: String },
    Restart { name: String },
    RestartTask { name: String, task_id: u32 },
    Create { file: String },
    Update { name: String, file: String },
    Delete { name: String },
    ExportYaml { name: String, cluster: Option<String> },
}

/// Cluster metadata commands.
pub enum ClusterCommands {
    Info,
    Plugins,
}

/// Snapshot commands.
pub enum SnapshotCommands {
    Trigger { name: String, snapshot_type: String, tables: Option<String> },
}

/// The `--format` option.
#[derive(Debug, Clone, Copy, PartialEq, Eq, Structural)]
pub enum FormatArg {
    Auto,
    Yaml,
    Json,
}

impl Default for FormatArg {
    fn default() -> (r: FormatArg)
        ensures
            r == FormatArg::Auto,
    {
        FormatArg::Auto
    }
}

/// The configuration format an option selects.
pub open spec fn format_of_arg(value: FormatArg) -> ConfigFormat {
    match value {
        FormatArg::Auto => ConfigFormat::Auto,
        FormatArg::Yaml => ConfigFormat::Yaml,
        FormatArg::Json => ConfigFormat::Json,
    }
}

impl From<FormatArg> for ConfigFormat {
    fn from(value: FormatArg) -> (r: ConfigFormat) {
        match value {
            FormatArg::Auto => ConfigFormat::Auto,
            FormatArg::Yaml => ConfigFormat::Yaml,
            FormatArg::Json => ConfigFormat::Json,
        }
    }
}

impl vstd::std_specs::convert::FromSpecImpl<FormatArg> for ConfigFormat {
    open spec fn obeys_from_spec() -> bool {
        true
    }

    open spec fn from_spec(value: FormatArg) -> ConfigFormat {
        format_of_arg(value)
    }
}

} // verus!
