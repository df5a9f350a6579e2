pub mod appstate;
pub mod appwindow;
pub mod assethash;
pub mod audit;
pub mod backend;
pub mod canceller;
pub mod channel;
pub mod chd;
pub mod collections;
pub mod console;
pub mod debugstr;
pub mod devimageconfig;
pub mod error;
pub mod guiutils;
pub mod diagnostics;
pub mod dialogs;
pub mod history;
pub mod history_xml;
pub mod mconfig;
pub mod icon;
pub mod prefs;
pub mod status;
pub mod text;
pub mod xml;
