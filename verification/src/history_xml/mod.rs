//! `history.xml`: the history texts of systems and software.
pub mod markdown;
pub mod parse;
