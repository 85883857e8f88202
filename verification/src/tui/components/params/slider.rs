//! Slider kinds.

use vstd::prelude::*;

verus! {

/// Type of slider (determines which message a change sends).
#[derive(Debug, Clone, Copy, PartialEq, Eq, Structural)]
pub enum SliderType {
    MinContrast,
    ExtendedMinContrast,
    AccentColorfulness,
    ExtendedColorfulness,
    LightnessStrength,
    ChromaStrength,
    HueStrength,
}

} // verus!
