//! Grouped accent color controls: sub-focus order and labels.

use vstd::prelude::*;

verus! {

/// Which control is focused within the accent group.
#[derive(Debug, Clone, Copy, PartialEq, Eq, Structural)]
pub enum AccentFocus {
    MinContrast,
    TargetJ,
    DeltaJ,
    TargetM,
    DeltaM,
}

impl Default for AccentFocus {
    fn default() -> (r: Self)
        ensures
            r == AccentFocus::MinContrast,
    {
        AccentFocus::MinContrast
    }
}

/// Position of a control in the accent group (top to bottom).
pub open spec fn accent_focus_index(f: AccentFocus) -> int {
    match f {
        AccentFocus::MinContrast => 0,
        AccentFocus::TargetJ => 1,
        AccentFocus::DeltaJ => 2,
        AccentFocus::TargetM => 3,
        AccentFocus::DeltaM => 4,
    }
}

/// The control at a position of the accent group (modulo 5).
pub open spec fn accent_focus_at(i: int) -> AccentFocus {
    let k = i % 5;
    if k == 0 {
        AccentFocus::MinContrast
    } else if k == 1 {
        AccentFocus::TargetJ
    } else if k == 2 {
        AccentFocus::DeltaJ
    } else if k == 3 {
        AccentFocus::TargetM
    } else {
        AccentFocus::DeltaM
    }
}

impl AccentFocus {
    /// The control below, wrapping to the top.
    pub fn next(self) -> (r: Self)
        ensures
            r == accent_focus_at(accent_focus_index(self) + 1),
    {
        match self {
            AccentFocus::MinContrast => AccentFocus::TargetJ,
            AccentFocus::TargetJ => AccentFocus::DeltaJ,
            AccentFocus::DeltaJ => AccentFocus::TargetM,
            AccentFocus::TargetM => AccentFocus::DeltaM,
            AccentFocus::DeltaM => AccentFocus::MinContrast,
        }
    }

    /// The control above, wrapping to the bottom.
    pub fn prev(self) -> (r: Self)
        ensures
            r == accent_focus_at(accent_focus_index(self) + 4),
    {
        match self {
            AccentFocus::MinContrast => AccentFocus::DeltaM,
            AccentFocus::TargetJ => AccentFocus::MinContrast,
            AccentFocus::DeltaJ => AccentFocus::TargetJ,
            AccentFocus::TargetM => AccentFocus::DeltaJ,
            AccentFocus::DeltaM => AccentFocus::TargetM,
        }
    }
}

/// Down then up (or up then down) returns to the same accent control;
/// five steps go once around the group.
pub proof fn lemma_accent_focus_laws(f: AccentFocus, n: nat)
    ensures
        accent_focus_at(accent_focus_index(accent_focus_at(accent_focus_index(f) + 1)) + 4) == f,
        accent_focus_at(accent_focus_index(accent_focus_at(accent_focus_index(f) + 4)) + 1) == f,
        accent_focus_at(accent_focus_index(f) + n) == f <==> n % 5 == 0,
{
}

/// Type of accent controls (base accents or extended accents).
#[derive(Debug, Clone, Copy, PartialEq, Eq, Structural)]
pub enum AccentControlsType {
    /// Base accent colors (base08-base0F)
    Base,
    /// Extended accent colors (base10-base17)
    Extended,
}

impl AccentControlsType {
    /// Prefix of the group's labels.
    pub fn label_prefix(self) -> (r: &'static str)
        ensures
            r@ == (match self {
                AccentControlsType::Base => "Accent"@,
                AccentControlsType::Extended => "Extended"@,
            }),
    {
        match self {
            AccentControlsType::Base => "Accent",
            AccentControlsType::Extended => "Extended",
        }
    }
}

} // verus!
