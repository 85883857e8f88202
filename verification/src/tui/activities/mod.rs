//! The editor's screens.

pub mod code_preview;
pub mod main;
