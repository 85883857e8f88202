//! Base24 palette generator: the verified core.
//!
//! Color science (floating point) and terminal I/O live in the companion
//! application; this crate holds the discrete logic: hex color codes,
//! slugs and palette slot names, validation pair tables, variant selection,
//! the bucketed gamut boundary cache, and the focus, selection and text
//! entry state machines of the interactive editor.

pub mod cli;
pub mod cli_args;
pub mod config;
pub mod css;
pub mod curves;
pub mod cyclic;
pub mod gamut_map;
pub mod generate;
pub mod import;
pub mod interpolation;
pub mod tui;
pub mod validation;
mod text;
