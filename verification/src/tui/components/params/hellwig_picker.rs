//! Perceptual (J', M, h) color picker: sub-focus order and labels.

use vstd::prelude::*;

verus! {

/// Which slider is focused within the picker.
#[derive(Debug, Clone, Copy, PartialEq, Eq, Structural)]
pub enum HellwigFocus {
    Lightness,
    Colorfulness,
    Hue,
}

impl Default for HellwigFocus {
    fn default() -> (r: Self)
        ensures
            r == HellwigFocus::Lightness,
    {
        HellwigFocus::Lightness
    }
}

/// Position of a slider in the picker (top to bottom).
pub open spec fn hellwig_focus_index(f: HellwigFocus) -> int {
    match f {
        HellwigFocus::Lightness => 0,
        HellwigFocus::Colorfulness => 1,
        HellwigFocus::Hue => 2,
    }
}

/// The slider at a position of the picker (modulo 3).
pub open spec fn hellwig_focus_at(i: int) -> HellwigFocus {
    let k = i % 3;
    if k == 0 {
        HellwigFocus::Lightness
    } else if k == 1 {
        HellwigFocus::Colorfulness
    } else {
        HellwigFocus::Hue
    }
}

impl HellwigFocus {
    /// The slider below, wrapping to the top.
    pub fn next(self) -> (r: Self)
        ensures
            r == hellwig_focus_at(hellwig_focus_index(self) + 1),
    {
        match self {
            HellwigFocus::Lightness => HellwigFocus::Colorfulness,
            HellwigFocus::Colorfulness => HellwigFocus::Hue,
            HellwigFocus::Hue => HellwigFocus::Lightness,
        }
    }

    /// The slider above, wrapping to the bottom.
    pub fn prev(self) -> (r: Self)
        ensures
            r == hellwig_focus_at(hellwig_focus_index(self) + 2),
    {
        match self {
            HellwigFocus::Lightness => HellwigFocus::Hue,
            HellwigFocus::Colorfulness => HellwigFocus::Lightness,
            HellwigFocus::Hue => HellwigFocus::Colorfulness,
        }
    }
}

/// Down then up (or up then down) returns to the same slider; three steps
/// go once around the picker.
pub proof fn lemma_hellwig_focus_laws(f: HellwigFocus, n: nat)
    ensures
        hellwig_focus_at(hellwig_focus_index(hellwig_focus_at(hellwig_focus_index(f) + 1)) + 2) == f,
        hellwig_focus_at(hellwig_focus_index(hellwig_focus_at(hellwig_focus_index(f) + 2)) + 1) == f,
        hellwig_focus_at(hellwig_focus_index(f) + n) == f <==> n % 3 == 0,
{
}

/// Type of color picker (background or foreground).
#[derive(Debug, Clone, Copy, PartialEq, Eq, Structural)]
pub enum HellwigPickerType {
    Background,
    Foreground,
}

impl HellwigPickerType {
    /// Heading of the picker.
    pub fn label(self) -> (r: &'static str)
        ensures
            r@ == (match self {
                HellwigPickerType::Background => "Background"@,
                HellwigPickerType::Foreground => "Foreground"@,
            }),
    {
        match self {
            HellwigPickerType::Background => "Background",
            HellwigPickerType::Foreground => "Foreground",
        }
    }
}

} // verus!
