//! The logic behind the dialogs.
pub mod builtincollections;
pub mod cheats;
pub mod configure;
pub mod file;
pub mod input;
pub mod messagebox;
pub mod newcollection;
pub mod paths;
pub mod seqpoll;
pub mod socket;
pub mod stopwarning;
pub mod switches;
