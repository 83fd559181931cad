//! Connector control helpers: snapshot signals and Strimzi YAML export.
pub mod yaml;
pub mod snapshot;
