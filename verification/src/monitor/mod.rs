//! Debezium notification monitoring and snapshot progress tracking.
pub mod notification;
pub mod tracker;
