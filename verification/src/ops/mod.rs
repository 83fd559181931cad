//! The `strimzi-ops` command line: its commands, its errors, and what the
//! `lint` and `connectors` commands compute.
pub mod cli;
pub mod connectors;
pub mod error;
pub mod lint;
pub mod monitor;
pub mod payload;
