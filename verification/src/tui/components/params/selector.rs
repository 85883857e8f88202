//! Cycle selector: which option is selected and how selection moves.

use vstd::prelude::*;
use crate::cyclic::lemma_cyclic_step;

use crate::curves::{curve_at, curve_index, CurveType};

verus! {

/// Type of selector (determines which message a change sends).
#[derive(Debug, Clone, Copy, PartialEq, Eq, Structural)]
pub enum SelectorType {
    Lightness,
    Chroma,
    Hue,
}

/// The initially selected option: the requested one, or the last option
/// when the request is past the end (0 when there are no options).
pub fn initial_selection(initial: usize, option_count: usize) -> (r: usize)
    ensures
        r == vstd::math::min(initial as int, if option_count > 0 { option_count - 1 } else { 0 }),
{
    let last = option_count.saturating_sub(1);
    if initial < last {
        initial
    } else {
        last
    }
}

/// Selection after moving right: the next option, wrapping to the first;
/// unchanged when there are no options.
pub fn cycle_next(selected: usize, option_count: usize) -> (r: usize)
    requires
        option_count == 0 || selected < usize::MAX,
    ensures
        option_count == 0 ==> r == selected,
        option_count > 0 ==> r == (selected + 1) % (option_count as int),
{
    if option_count == 0 {
        selected
    } else {
        (selected + 1) % option_count
    }
}

/// Selection after moving left: the previous option, wrapping to the last;
/// unchanged when there are no options.
pub fn cycle_prev(selected: usize, option_count: usize) -> (r: usize)
    requires
        option_count == 0 || selected + option_count <= usize::MAX,
    ensures
        option_count == 0 ==> r == selected,
        option_count > 0 ==> r == (selected + option_count - 1) % (option_count as int),
{
    if option_count == 0 {
        selected
    } else {
        (selected + option_count - 1) % option_count
    }
}

/// The curve type listed at a selector position; positions past the listed
/// six curve types select the B-spline.
pub open spec fn curve_for_index(idx: int) -> CurveType {
    if idx < 7 {
        curve_at(idx)
    } else {
        CurveType::BSpline
    }
}

/// The curve type at a selector position.
pub fn curve_type_from_index(idx: usize) -> (r: CurveType)
    ensures
        r == curve_for_index(idx as int),
{
    match idx {
        0 => CurveType::Linear,
        1 => CurveType::Smoothstep,
        2 => CurveType::Smootherstep,
        3 => CurveType::SmoothStart,
        4 => CurveType::SmoothEnd,
        5 => CurveType::Sigmoid,
        _ => CurveType::BSpline,
    }
}

/// Selecting a curve type's position gives that curve type back.
pub proof fn lemma_curve_index_roundtrip(c: CurveType)
    ensures
        curve_for_index(curve_index(c)) == c,
        0 <= curve_index(c) < 7,
{
}

/// Right then left (or left then right) restores the selection when there
/// are options.
pub proof fn lemma_cycle_selection_inverse(selected: int, option_count: int)
    requires
        0 <= selected < option_count,
    ensures
        ((selected + 1) % option_count + option_count - 1) % option_count == selected,
        ((selected + option_count - 1) % option_count + 1) % option_count == selected,
{
    lemma_cyclic_step(selected, option_count);
    lemma_cyclic_step((selected + 1) % option_count, option_count);
    lemma_cyclic_step((selected + option_count - 1) % option_count, option_count);
}

} // verus!
