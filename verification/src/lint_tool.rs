//! Errors of the `strimzi-lint` command line.
use vstd::prelude::*;
use crate::error::{error_message, Error as CoreError};
use crate::text::{concat2, concat4};

verus! {

/// Why a run of `strimzi-lint` failed.
#[derive(Debug)]
pub enum Error {
    /// An error of the library's core operations.
    Core(CoreError),
    /// The connector configuration file could not be read.
    Read { path: String, reason: String },
    /// JSON output could not be produced.
    JsonOutput { reason: String },
}

pub open spec fn lint_error_message(e: Error) -> Seq<char> {
    match e {
        Error::Core(inner) => error_message(inner),
        Error::Read { path, reason } => "cannot read "@ + path@ + ": "@ + reason@,
        Error::JsonOutput { reason } => "cannot serialise JSON output: "@ + reason@,
    }
}

impl Error {
    /// The error's message; a core error keeps its own.
    pub fn message(&self) -> (r: String)
        ensures
            r@ == lint_error_message(*self),
    {
        match self {
            Error::Core(inner) => inner.message(),
            Error::Read { path, reason } => concat4("cannot read ", path.as_str(), ": ", reason.as_str()),
            Error::JsonOutput { reason } => concat2("cannot serialise JSON output: ", reason.as_str()),
        }
    }
}

impl From<CoreError> for Error {
    fn from(e: CoreError) -> (r: Error) {
        Error::Core(e)
    }
}

impl vstd::std_specs::convert::FromSpecImpl<CoreError> for Error {
    open spec fn obeys_from_spec() -> bool {
        true
    }

    open spec fn from_spec(e: CoreError) -> Error {
        Error::Core(e)
    }
}

} // verus!
