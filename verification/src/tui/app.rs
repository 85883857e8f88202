//! Application setup: the Tab order of the parameter components, shared
//! with the main activity.

pub use crate::tui::activities::main::{focus_order, lemma_focus_manager_laws, FocusManager};
