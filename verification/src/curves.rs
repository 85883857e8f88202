//! Curve types used for easing the interpolation of palette channels.

use vstd::prelude::*;

verus! {

/// Available curve/easing types for interpolation.
#[derive(Debug, Clone, Copy, PartialEq, Eq, Structural)]
pub enum CurveType {
    /// Linear interpolation (no easing)
    Linear,
    /// Smooth S-curve (Hermite interpolation)
    Smoothstep,
    /// Smoother S-curve (Ken Perlin's improved version)
    Smootherstep,
    /// Ease-in (accelerating from start)
    SmoothStart,
    /// Ease-out (decelerating to end)
    SmoothEnd,
    /// Sigmoid curve with configurable steepness
    Sigmoid,
    /// Custom B-spline with control points
    BSpline,
}

/// Position of a curve type in the cycling order used by the editor.
pub open spec fn curve_index(c: CurveType) -> int {
    match c {
        CurveType::Linear => 0,
        CurveType::Smoothstep => 1,
        CurveType::Smootherstep => 2,
        CurveType::SmoothStart => 3,
        CurveType::SmoothEnd => 4,
        CurveType::Sigmoid => 5,
        CurveType::BSpline => 6,
    }
}

/// The curve type at a position of the cycling order (positions taken modulo 7).
pub open spec fn curve_at(i: int) -> CurveType {
    let k = i % 7;
    if k == 0 {
        CurveType::Linear
    } else if k == 1 {
        CurveType::Smoothstep
    } else if k == 2 {
        CurveType::Smootherstep
    } else if k == 3 {
        CurveType::SmoothStart
    } else if k == 4 {
        CurveType::SmoothEnd
    } else if k == 5 {
        CurveType::Sigmoid
    } else {
        CurveType::BSpline
    }
}

/// Display label of a curve type.
pub open spec fn curve_label(c: CurveType) -> Seq<char> {
    match c {
        CurveType::Linear => "Linear"@,
        CurveType::Smoothstep => "Smoothstep"@,
        CurveType::Smootherstep => "Smootherstep"@,
        CurveType::SmoothStart => "Ease In"@,
        CurveType::SmoothEnd => "Ease Out"@,
        CurveType::Sigmoid => "Sigmoid"@,
        CurveType::BSpline => "B-Spline"@,
    }
}

impl CurveType {
    /// Get the next curve type in sequence.
    pub fn next(self) -> (r: Self)
        ensures
            r == curve_at(curve_index(self) + 1),
    {
        match self {
            CurveType::Linear => CurveType::Smoothstep,
            CurveType::Smoothstep => CurveType::Smootherstep,
            CurveType::Smootherstep => CurveType::SmoothStart,
            CurveType::SmoothStart => CurveType::SmoothEnd,
            CurveType::SmoothEnd => CurveType::Sigmoid,
            CurveType::Sigmoid => CurveType::BSpline,
            CurveType::BSpline => CurveType::Linear,
        }
    }

    /// Get the previous curve type in sequence.
    pub fn prev(self) -> (r: Self)
        ensures
            r == curve_at(curve_index(self) + 6),
    {
        match self {
            CurveType::Linear => CurveType::BSpline,
            CurveType::Smoothstep => CurveType::Linear,
            CurveType::Smootherstep => CurveType::Smoothstep,
            CurveType::SmoothStart => CurveType::Smootherstep,
            CurveType::SmoothEnd => CurveType::SmoothStart,
            CurveType::Sigmoid => CurveType::SmoothEnd,
            CurveType::BSpline => CurveType::Sigmoid,
        }
    }

    /// Display name for the curve type.
    pub fn display_name(self) -> (r: &'static str)
        ensures
            r@ == curve_label(self),
    {
        match self {
            CurveType::Linear => "Linear",
            CurveType::Smoothstep => "Smoothstep",
            CurveType::Smootherstep => "Smootherstep",
            CurveType::SmoothStart => "Ease In",
            CurveType::SmoothEnd => "Ease Out",
            CurveType::Sigmoid => "Sigmoid",
            CurveType::BSpline => "B-Spline",
        }
    }

    /// Whether this curve type uses the strength parameter.
    pub fn uses_strength(self) -> (r: bool)
        ensures
            r <==> self == CurveType::Sigmoid,
    {
        match self {
            CurveType::Sigmoid => true,
            _ => false,
        }
    }
}

/// Cycling forward then backward returns to the starting curve type, and
/// so does cycling backward then forward.
pub proof fn lemma_curve_next_prev_inverse(c: CurveType)
    ensures
        curve_at(curve_index(curve_at(curve_index(c) + 1)) + 6) == c,
        curve_at(curve_index(curve_at(curve_index(c) + 6)) + 1) == c,
{
}

/// Stepping forward seven times visits every curve type once and returns
/// to the start.
pub proof fn lemma_curve_cycle_length(c: CurveType, n: nat)
    ensures
        curve_at(curve_index(c) + n) == c <==> n % 7 == 0,
{
}

} // verus!
