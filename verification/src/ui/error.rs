//! Errors of the web UI's handlers.
use vstd::prelude::*;
use crate::error::{error_message, Error as CoreError};
use crate::text::{concat2, concat4};

verus! {

/// Why a page of the web UI could not be produced.
#[derive(Debug)]
pub enum Error {
    /// An error of the library's core operations.
    Core(CoreError),
    /// A file could not be read.
    Read { path: String, reason: String },
    /// A JSON payload was refused.
    Json { reason: String },
    /// No Kafka Connect URL is configured.
    ConfigRequired,
    /// Something went wrong inside the server.
    Internal { reason: String },
}

pub open spec fn ui_error_message(e: Error) -> Seq<char> {
    match e {
        Error::Core(inner) => error_message(inner),
        Error::Read { path, reason } => "cannot read "@ + path@ + ": "@ + reason@,
        Error::Json { reason } => "cannot parse JSON: "@ + reason@,
        Error::ConfigRequired =>
            "configuration is required; set --connect-url or kafka.connect_url in secrets.toml"@,
        Error::Internal { reason } => "internal error: "@ + reason@,
    }
}

impl Error {
    /// The error's message; a core error keeps its own.
    pub fn message(&self) -> (r: String)
        ensures
            r@ == ui_error_message(*self),
    {
        match self {
            Error::Core(inner) => inner.message(),
            Error::Read { path, reason } => concat4("cannot read ", path.as_str(), ": ", reason.as_str()),
            Error::Json { reason } => concat2("cannot parse JSON: ", reason.as_str()),
            Error::ConfigRequired => "configuration is required; set --connect-url or kafka.connect_url in secrets.toml".to_string(),
            Error::Internal { reason } => concat2("internal error: ", reason.as_str()),
        }
    }
}

impl From<CoreError> for Error {
    fn from(e: CoreError) -> (r: Error) {
        Error::Core(e)
    }
}

impl vstd::std_specs::convert::FromSpecImpl<CoreError> for Error {
    open spec fn obeys_from_spec() -> bool {
        true
    }

    open spec fn from_spec(e: CoreError) -> Error {
        Error::Core(e)
    }
}

} // verus!
