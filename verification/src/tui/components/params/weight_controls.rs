//! Grouped optimization weight controls: sub-focus order.

use vstd::prelude::*;

verus! {

/// Which weight is focused.
#[derive(Debug, Clone, Copy, PartialEq, Eq, Structural)]
pub enum WeightFocus {
    ContrastWeight,
    JWeight,
}

impl Default for WeightFocus {
    fn default() -> (r: Self)
        ensures
            r == WeightFocus::ContrastWeight,
    {
        WeightFocus::ContrastWeight
    }
}

/// The other weight control.
pub open spec fn other_weight(f: WeightFocus) -> WeightFocus {
    match f {
        WeightFocus::ContrastWeight => WeightFocus::JWeight,
        WeightFocus::JWeight => WeightFocus::ContrastWeight,
    }
}

impl WeightFocus {
    /// The next weight control (the other one).
    pub fn next(self) -> (r: Self)
        ensures
            r == other_weight(self),
    {
        match self {
            WeightFocus::ContrastWeight => WeightFocus::JWeight,
            WeightFocus::JWeight => WeightFocus::ContrastWeight,
        }
    }

    /// The previous weight control: with two controls, the same as `next`.
    pub fn prev(self) -> (r: Self)
        ensures
            r == other_weight(self),
    {
        self.next()
    }
}

/// Moving twice in either direction returns to the same weight control,
/// and a move always changes it.
pub proof fn lemma_weight_focus_laws(f: WeightFocus)
    ensures
        other_weight(other_weight(f)) == f,
        other_weight(f) != f,
{
}

} // verus!
