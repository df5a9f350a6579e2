//! Helpers for the user interface.
pub mod menuing;
