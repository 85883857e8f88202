//! Interactive editor: focus, navigation and editing state machines.

pub mod activities;
pub mod activity;
pub mod app;
pub mod components;
pub mod ids;
pub mod input;
pub mod snippets;
pub mod state;
