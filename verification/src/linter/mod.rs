//! The connector linter: findings, rules, configuration and engine.
pub mod types;
pub mod config;
pub mod rules;
pub mod engine;
pub mod directives;
