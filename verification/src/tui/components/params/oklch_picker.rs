//! OKLCH color picker: sub-focus order and labels.

use vstd::prelude::*;

verus! {

/// Which slider is focused within the picker.
#[derive(Debug, Clone, Copy, PartialEq, Eq, Structural)]
pub enum OklchFocus {
    Lightness,
    Chroma,
    Hue,
}

impl Default for OklchFocus {
    fn default() -> (r: Self)
        ensures
            r == OklchFocus::Lightness,
    {
        OklchFocus::Lightness
    }
}

/// Position of a slider in the picker (top to bottom).
pub open spec fn oklch_focus_index(f: OklchFocus) -> int {
    match f {
        OklchFocus::Lightness => 0,
        OklchFocus::Chroma => 1,
        OklchFocus::Hue => 2,
    }
}

/// The slider at a position of the picker (modulo 3).
pub open spec fn oklch_focus_at(i: int) -> OklchFocus {
    let k = i % 3;
    if k == 0 {
        OklchFocus::Lightness
    } else if k == 1 {
        OklchFocus::Chroma
    } else {
        OklchFocus::Hue
    }
}

impl OklchFocus {
    /// The slider below, wrapping to the top.
    pub fn next(self) -> (r: Self)
        ensures
            r == oklch_focus_at(oklch_focus_index(self) + 1),
    {
        match self {
            OklchFocus::Lightness => OklchFocus::Chroma,
            OklchFocus::Chroma => OklchFocus::Hue,
            OklchFocus::Hue => OklchFocus::Lightness,
        }
    }

    /// The slider above, wrapping to the bottom.
    pub fn prev(self) -> (r: Self)
        ensures
            r == oklch_focus_at(oklch_focus_index(self) + 2),
    {
        match self {
            OklchFocus::Lightness => OklchFocus::Hue,
            OklchFocus::Chroma => OklchFocus::Lightness,
            OklchFocus::Hue => OklchFocus::Chroma,
        }
    }
}

/// Down then up (or up then down) returns to the same slider; three steps
/// go once around the picker.
pub proof fn lemma_oklch_focus_laws(f: OklchFocus, n: nat)
    ensures
        oklch_focus_at(oklch_focus_index(oklch_focus_at(oklch_focus_index(f) + 1)) + 2) == f,
        oklch_focus_at(oklch_focus_index(oklch_focus_at(oklch_focus_index(f) + 2)) + 1) == f,
        oklch_focus_at(oklch_focus_index(f) + n) == f <==> n % 3 == 0,
{
}

/// Type of OKLCH picker (background or foreground).
#[derive(Debug, Clone, Copy, PartialEq, Eq, Structural)]
pub enum OklchPickerType {
    Background,
    Foreground,
}

impl OklchPickerType {
    /// Heading of the picker.
    pub fn label(self) -> (r: &'static str)
        ensures
            r@ == (match self {
                OklchPickerType::Background => "Background"@,
                OklchPickerType::Foreground => "Foreground"@,
            }),
    {
        match self {
            OklchPickerType::Background => "Background",
            OklchPickerType::Foreground => "Foreground",
        }
    }
}

} // verus!
