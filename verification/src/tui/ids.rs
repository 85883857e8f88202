//! Component identifiers for the editor.

use vstd::prelude::*;

verus! {

/// Unique identifiers for all components in the editor.
#[derive(Debug, Clone, Copy, PartialEq, Eq, Hash, Structural)]
pub enum Id {
    // Display panels (read-only)
    Palette,
    Preview,
    // Parameter groups (editable)
    BackgroundPicker,
    ForegroundPicker,
    TargetContrast,
    ExtendedContrast,
    AccentColorfulness,
    ExtendedColorfulness,
    LightnessCurve,
    LightnessStrength,
    ChromaCurve,
    ChromaStrength,
    HueCurve,
    HueStrength,
    HueOverrides,
    // Scrollable panel
    Validation,
}

} // verus!
