//! Editor components.

pub mod help;
pub mod params;
pub mod validation;
