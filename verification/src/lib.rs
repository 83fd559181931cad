use vstd::prelude::*;

pub mod assoc;
pub mod connect;
pub mod control;
pub mod document;
pub mod error;
pub mod lint_tool;
pub mod linter;
pub mod monitor;
pub mod ops;
pub mod parse;
pub mod schema;
pub mod settings;
pub mod json;
pub mod k8s;
pub mod laws;
pub mod text;
pub mod ui;
pub mod validate;

verus! {
} // verus!
