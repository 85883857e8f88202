//! Grouped curve controls: which rows are shown and how focus moves
//! between them.

use vstd::prelude::*;

use crate::curves::{curve_at, curve_index, CurveType};

verus! {

/// Which curve control is focused.
#[derive(Debug, Clone, Copy, PartialEq, Eq, Structural)]
pub enum CurveFocus {
    JType,
    JStrength,
    MType,
    MStrength,
    HType,
    HStrength,
}

impl Default for CurveFocus {
    fn default() -> (r: Self)
        ensures
            r == CurveFocus::JType,
    {
        CurveFocus::JType
    }
}

/// Position of a control in the group (type and strength of lightness,
/// colorfulness, hue).
pub open spec fn curve_focus_index(f: CurveFocus) -> int {
    match f {
        CurveFocus::JType => 0,
        CurveFocus::JStrength => 1,
        CurveFocus::MType => 2,
        CurveFocus::MStrength => 3,
        CurveFocus::HType => 4,
        CurveFocus::HStrength => 5,
    }
}

/// The control at a position of the group (modulo 6).
pub open spec fn curve_focus_at(i: int) -> CurveFocus {
    let k = i % 6;
    if k == 0 {
        CurveFocus::JType
    } else if k == 1 {
        CurveFocus::JStrength
    } else if k == 2 {
        CurveFocus::MType
    } else if k == 3 {
        CurveFocus::MStrength
    } else if k == 4 {
        CurveFocus::HType
    } else {
        CurveFocus::HStrength
    }
}

/// Whether a control is a strength slider.
pub open spec fn is_strength_spec(f: CurveFocus) -> bool {
    f == CurveFocus::JStrength || f == CurveFocus::MStrength || f == CurveFocus::HStrength
}

impl CurveFocus {
    /// Whether this focus is a strength slider.
    pub fn is_strength(self) -> (r: bool)
        ensures
            r == is_strength_spec(self),
    {
        match self {
            CurveFocus::JStrength | CurveFocus::MStrength | CurveFocus::HStrength => true,
            _ => false,
        }
    }
}

/// The curve types of the three interpolated channels.
#[derive(Debug, Clone, Copy, PartialEq, Eq, Structural)]
pub struct CurveTypes {
    pub j_type: CurveType,
    pub m_type: CurveType,
    pub h_type: CurveType,
}

/// Whether a control is shown: type selectors always are, a strength
/// slider only when its channel's curve uses a strength (sigmoid).
pub open spec fn visible(t: CurveTypes, f: CurveFocus) -> bool {
    match f {
        CurveFocus::JStrength => t.j_type == CurveType::Sigmoid,
        CurveFocus::MStrength => t.m_type == CurveType::Sigmoid,
        CurveFocus::HStrength => t.h_type == CurveType::Sigmoid,
        _ => true,
    }
}

/// The first shown control after `f` in the group's cyclic order.
pub open spec fn next_visible(t: CurveTypes, f: CurveFocus) -> CurveFocus {
    let i = curve_focus_index(f);
    if visible(t, curve_focus_at(i + 1)) {
        curve_focus_at(i + 1)
    } else {
        curve_focus_at(i + 2)
    }
}

/// The first shown control before `f` in the group's cyclic order.
pub open spec fn prev_visible(t: CurveTypes, f: CurveFocus) -> CurveFocus {
    let i = curve_focus_index(f);
    if visible(t, curve_focus_at(i + 5)) {
        curve_focus_at(i + 5)
    } else {
        curve_focus_at(i + 4)
    }
}

/// One step of cycling a curve type.
pub open spec fn step_curve(c: CurveType, forward: bool) -> CurveType {
    if forward {
        curve_at(curve_index(c) + 1)
    } else {
        curve_at(curve_index(c) + 6)
    }
}

/// The control at a position of the group.
fn curve_focus_at_index(k: usize) -> (r: CurveFocus)
    requires
        k < 6,
    ensures
        r == curve_focus_at(k as int),
{
    match k {
        0 => CurveFocus::JType,
        1 => CurveFocus::JStrength,
        2 => CurveFocus::MType,
        3 => CurveFocus::MStrength,
        4 => CurveFocus::HType,
        _ => CurveFocus::HStrength,
    }
}

/// Position of a control in the group.
fn curve_focus_position(f: CurveFocus) -> (r: usize)
    ensures
        r == curve_focus_index(f),
{
    match f {
        CurveFocus::JType => 0,
        CurveFocus::JStrength => 1,
        CurveFocus::MType => 2,
        CurveFocus::MStrength => 3,
        CurveFocus::HType => 4,
        CurveFocus::HStrength => 5,
    }
}

impl CurveTypes {
    /// Check if a strength focus should be visible.
    pub fn is_strength_visible(&self, focus: CurveFocus) -> (r: bool)
        ensures
            r == visible(*self, focus),
    {
        match focus {
            CurveFocus::JStrength => self.j_type.uses_strength(),
            CurveFocus::MStrength => self.m_type.uses_strength(),
            CurveFocus::HStrength => self.h_type.uses_strength(),
            _ => true,
        }
    }

    /// Move to the next visible focus (searching the cyclic order).
    pub fn focus_next(&self, current: CurveFocus) -> (r: CurveFocus)
        ensures
            r == next_visible(*self, current),
    {
        let idx = curve_focus_position(current);
        let mut i: usize = 1;
        while i <= 6
            invariant
                idx == curve_focus_index(current),
                1 <= i <= 7,
                forall|j: int| 1 <= j < i ==> !visible(*self, #[trigger] curve_focus_at(idx + j)),
            decreases 7 - i,
        {
            let candidate = curve_focus_at_index((idx + i) % 6);
            if self.is_strength_visible(candidate) {
                assert(curve_focus_at(idx + i) == candidate);
                return candidate;
            }
            assert(curve_focus_at(idx + i) == candidate);
            i = i + 1;
        }
        proof {
            assert(!visible(*self, curve_focus_at(idx + 1)));
            assert(!visible(*self, curve_focus_at(idx + 2)));
        }
        current
    }

    /// Move to the previous visible focus (searching the cyclic order).
    pub fn focus_prev(&self, current: CurveFocus) -> (r: CurveFocus)
        ensures
            r == prev_visible(*self, current),
    {
        let idx = curve_focus_position(current);
        let mut i: usize = 1;
        while i <= 6
            invariant
                idx == curve_focus_index(current),
                1 <= i <= 7,
                forall|j: int|
                    1 <= j < i ==> !visible(*self, #[trigger] curve_focus_at(idx + 6 - j)),
            decreases 7 - i,
        {
            let candidate = curve_focus_at_index((idx + 6 - i) % 6);
            if self.is_strength_visible(candidate) {
                assert(curve_focus_at(idx + 6 - i) == candidate);
                proof {
                    if i >= 2 {
                        assert(!visible(*self, curve_focus_at(idx + 6 - 1)));
                    }
                    if i >= 3 {
                        assert(!visible(*self, curve_focus_at(idx + 6 - 2)));
                    }
                }
                return candidate;
            }
            assert(curve_focus_at(idx + 6 - i) == candidate);
            i = i + 1;
        }
        proof {
            assert(!visible(*self, curve_focus_at(idx + 6 - 1)));
            assert(!visible(*self, curve_focus_at(idx + 6 - 2)));
        }
        current
    }

    /// Cycle the curve type of the channel whose type selector is focused;
    /// nothing changes when a strength slider is focused.
    pub fn cycle_type(&mut self, focus: CurveFocus, forward: bool)
        ensures
            final(self).j_type == (if focus == CurveFocus::JType {
                step_curve(old(self).j_type, forward)
            } else {
                old(self).j_type
            }),
            final(self).m_type == (if focus == CurveFocus::MType {
                step_curve(old(self).m_type, forward)
            } else {
                old(self).m_type
            }),
            final(self).h_type == (if focus == CurveFocus::HType {
                step_curve(old(self).h_type, forward)
            } else {
                old(self).h_type
            }),
    {
        match focus {
            CurveFocus::JType => {
                self.j_type = if forward {
                    self.j_type.next()
                } else {
                    self.j_type.prev()
                };
            },
            CurveFocus::MType => {
                self.m_type = if forward {
                    self.m_type.next()
                } else {
                    self.m_type.prev()
                };
            },
            CurveFocus::HType => {
                self.h_type = if forward {
                    self.h_type.next()
                } else {
                    self.h_type.prev()
                };
            },
            _ => {},
        }
    }
}

/// Moving focus always lands on a shown control, skipping exactly the
/// hidden strength sliders in between; from a shown control, down then up
/// (or up then down) returns to it.
pub proof fn lemma_curve_focus_navigation(t: CurveTypes, f: CurveFocus)
    ensures
        visible(t, next_visible(t, f)),
        visible(t, prev_visible(t, f)),
        next_visible(t, f) == curve_focus_at(curve_focus_index(f) + 1) || (!visible(
            t,
            curve_focus_at(curve_focus_index(f) + 1),
        ) && next_visible(t, f) == curve_focus_at(curve_focus_index(f) + 2)),
        prev_visible(t, f) == curve_focus_at(curve_focus_index(f) + 5) || (!visible(
            t,
            curve_focus_at(curve_focus_index(f) + 5),
        ) && prev_visible(t, f) == curve_focus_at(curve_focus_index(f) + 4)),
        visible(t, f) ==> prev_visible(t, next_visible(t, f)) == f,
        visible(t, f) ==> next_visible(t, prev_visible(t, f)) == f,
{
}

} // verus!
