//! Command-line choices: output variant, output format and curve types.

use vstd::prelude::*;

verus! {

/// Output variant selection.
#[derive(Debug, Clone, Copy, PartialEq, Eq, Structural)]
pub enum VariantArg {
    /// Auto-detect from background luminance
    Auto,
    /// Force dark variant
    Dark,
    /// Force light variant
    Light,
    /// Generate both variants (requires --output)
    Both,
}

impl Default for VariantArg {
    fn default() -> (r: Self)
        ensures
            r == VariantArg::Auto,
    {
        VariantArg::Auto
    }
}

/// Output format selection.
#[derive(Debug, Clone, Copy, PartialEq, Eq, Structural)]
pub enum OutputFormat {
    /// YAML format (default, tinted-theming compatible)
    Yaml,
    /// JSON format (tinted-theming compatible)
    Json,
}

impl Default for OutputFormat {
    fn default() -> (r: Self)
        ensures
            r == OutputFormat::Yaml,
    {
        OutputFormat::Yaml
    }
}

/// CLI-compatible curve type enum.
#[derive(Debug, Clone, Copy, PartialEq, Eq, Structural)]
pub enum CurveTypeArg {
    /// Linear interpolation (no easing)
    Linear,
    /// Smooth S-curve (Hermite)
    Smoothstep,
    /// Smoother S-curve (Ken Perlin)
    Smootherstep,
    /// Ease-in (accelerating start)
    SmoothStart,
    /// Ease-out (decelerating end)
    SmoothEnd,
    /// Configurable S-curve (use with --lightness-strength)
    Sigmoid,
}

impl Default for CurveTypeArg {
    fn default() -> (r: Self)
        ensures
            r == CurveTypeArg::Linear,
    {
        CurveTypeArg::Linear
    }
}

} // verus!
