//! Errors of the `strimzi-ops` command line.
use vstd::prelude::*;
use crate::error::{error_message, Error as CoreError};
use crate::text::{concat2, concat4};

verus! {

/// Why a command of `strimzi-ops` failed.
#[derive(Debug)]
pub enum Error {
    /// An error of the library's core operations.
    Core(CoreError),
    /// A file could not be read.
    Read { path: String, reason: String },
    /// JSON output could not be produced, or a payload was refused.
    JsonOutput { reason: String },
    /// A secrets file could not be read as TOML.
    Secrets { path: String, reason: String },
    /// A required connection option was not given.
    MissingOption { option: String },
}

pub open spec fn ops_error_message(e: Error) -> Seq<char> {
    match e {
        Error::Core(inner) => error_message(inner),
        Error::Read { path, reason } => "cannot read "@ + path@ + ": "@ + reason@,
        Error::JsonOutput { reason } => "cannot serialise JSON output: "@ + reason@,
        Error::Secrets { path, reason } => "cannot load secrets from "@ + path@ + ": "@ + reason@,
        Error::MissingOption { option } => "missing required option: "@ + option@,
    }
}

impl Error {
    /// The error's message; a core error keeps its own.
    pub fn message(&self) -> (r: String)
        ensures
            r@ == ops_error_message(*self),
    {
        match self {
            Error::Core(inner) => inner.message(),
            Error::Read { path, reason } => concat4("cannot read ", path.as_str(), ": ", reason.as_str()),
            Error::JsonOutput { reason } => concat2("cannot serialise JSON output: ", reason.as_str()),
            Error::Secrets { path, reason } => concat4(
                "cannot load secrets from ",
                path.as_str(),
                ": ",
                reason.as_str(),
            ),
            Error::MissingOption { option } => concat2("missing required option: ", option.as_str()),
        }
    }
}

impl From<CoreError> for Error {
    fn from(e: CoreError) -> (r: Error) {
        Error::Core(e)
    }
}

impl vstd::std_specs::convert::FromSpecImpl<CoreError> for Error {
    open spec fn obeys_from_spec() -> bool {
        true
    }

    open spec fn from_spec(e: CoreError) -> Error {
        Error::Core(e)
    }
}

} // verus!
