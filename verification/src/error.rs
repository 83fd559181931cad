//! The library's error type.
use vstd::prelude::*;
use crate::text::{concat2, concat3, concat4};

verus! {

/// Why an operation of the library failed.
#[derive(Debug)]
pub enum Error {
    /// A file could not be read.
    Read { path: String, reason: String },
    /// Configuration text could not be parsed.
    Parse { format: String, reason: String },
    /// A linter configuration file was refused.
    LinterConfig { path: String, reason: String },
    /// A format name that is none of `auto`, `json`, `yaml`.
    UnknownFormat { format: String },
    /// `kubectl` could not be run.
    Kubectl { reason: String },
    /// A Kafka client operation failed.
    Kafka { reason: String },
    /// A Kafka operation needs bootstrap servers and none were given.
    BootstrapServersRequired,
    /// The notification monitor was used before it was started.
    MonitorNotStarted,
    /// A Kafka Connect URL could not be parsed.
    InvalidConnectUrl { url: String, reason: String },
    /// A Kafka Connect REST call failed.
    ConnectHttp { method: String, path: String, reason: String },
    /// A secrets file could not be read as TOML.
    Secrets { path: String, reason: String },
    /// A required connection option was not given.
    MissingOption { option: String },
}

pub open spec fn error_message(e: Error) -> Seq<char> {
    match e {
        Error::Read { path, reason } => "cannot read "@ + path@ + ": "@ + reason@,
        Error::Parse { format, reason } => "cannot parse configuration as "@ + format@ + ": "@
            + reason@,
        Error::LinterConfig { path, reason } => "cannot load linter config from "@ + path@ + ": "@
            + reason@,
        Error::UnknownFormat { format } => "unknown configuration format '"@ + format@ + "'"@,
        Error::Kubectl { reason } => "cannot run kubectl: "@ + reason@,
        Error::Kafka { reason } => "kafka error: "@ + reason@,
        Error::BootstrapServersRequired => "bootstrap servers are required for Kafka signaling"@,
        Error::MonitorNotStarted => "notification monitor is not started"@,
        Error::InvalidConnectUrl { url, reason } => "invalid Kafka Connect URL "@ + url@ + ": "@
            + reason@,
        Error::ConnectHttp { method, path, reason } => "Kafka Connect request "@ + method@ + " "@
            + path@ + " failed: "@ + reason@,
        Error::Secrets { path, reason } => "cannot load secrets from "@ + path@ + ": "@ + reason@,
        Error::MissingOption { option } => "missing required option: "@ + option@,
    }
}

impl Error {
    /// The error's message.
    pub fn message(&self) -> (r: String)
        ensures
            r@ == error_message(*self),
    {
        match self {
            Error::Read { path, reason } => concat4("cannot read ", path.as_str(), ": ", reason.as_str()),
            Error::Parse { format, reason } => concat4(
                "cannot parse configuration as ",
                format.as_str(),
                ": ",
                reason.as_str(),
            ),
            Error::LinterConfig { path, reason } => concat4(
                "cannot load linter config from ",
                path.as_str(),
                ": ",
                reason.as_str(),
            ),
            Error::UnknownFormat { format } => concat3(
                "unknown configuration format '",
                format.as_str(),
                "'",
            ),
            Error::Kubectl { reason } => concat2("cannot run kubectl: ", reason.as_str()),
            Error::Kafka { reason } => concat2("kafka error: ", reason.as_str()),
            Error::BootstrapServersRequired => "bootstrap servers are required for Kafka signaling".to_string(),
            Error::MonitorNotStarted => "notification monitor is not started".to_string(),
            Error::InvalidConnectUrl { url, reason } => concat4(
                "invalid Kafka Connect URL ",
                url.as_str(),
                ": ",
                reason.as_str(),
            ),
            Error::ConnectHttp { method, path, reason } => {
                let head = concat4("Kafka Connect request ", method.as_str(), " ", path.as_str());
                concat3(head.as_str(), " failed: ", reason.as_str())
            },
            Error::Secrets { path, reason } => concat4(
                "cannot load secrets from ",
                path.as_str(),
                ": ",
                reason.as_str(),
            ),
            Error::MissingOption { option } => concat2("missing required option: ", option.as_str()),
        }
    }
}

} // verus!
