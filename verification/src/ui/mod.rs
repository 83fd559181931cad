//! The web UI's logic: application state, pages and their contents.
pub mod connectors;
pub mod control;
pub mod dashboard;
pub mod error;
pub mod state;
pub mod views;
