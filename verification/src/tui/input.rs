//! Actions that key handling can ask of the application.

use vstd::prelude::*;

verus! {

/// Actions that can be returned from event handling.
#[derive(Debug, Clone, Copy, PartialEq, Eq, Structural)]
pub enum Action {
    /// Quit the application.
    Quit,
    /// Regenerate the palette.
    Regenerate,
    /// Export the scheme to file.
    Export,
    /// No action needed.
    NoOp,
}

} // verus!
