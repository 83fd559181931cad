//! Kafka Connect REST API: reply types, request paths and error texts.
pub mod endpoint;
pub mod types;
pub mod paths;
