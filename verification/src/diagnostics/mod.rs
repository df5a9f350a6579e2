//! Diagnostic tools.
pub mod script;
