//! Main activity: the palette editing screen's components and Tab order.

use vstd::prelude::*;

verus! {

/// Unique identifiers for all components in the main activity.
#[derive(Debug, Clone, Copy, PartialEq, Eq, Hash, Structural)]
pub enum Id {
    // Display panels (read-only)
    Palette,
    Preview,
    // Parameter groups (editable)
    BackgroundPicker,
    ForegroundPicker,
    CurveControls,
    WeightControls,
    AccentControls,
    ExtendedAccentControls,
    HueOverrides,
    // Scrollable panel
    Validation,
}

/// All focusable component IDs in Tab order.
pub open spec fn focus_order() -> Seq<Id> {
    seq![
        Id::BackgroundPicker,
        Id::ForegroundPicker,
        Id::CurveControls,
        Id::WeightControls,
        Id::AccentControls,
        Id::ExtendedAccentControls,
        Id::HueOverrides,
        Id::Validation,
    ]
}

/// The focusable component at a position of the Tab order.
fn focus_id_at(idx: usize) -> (r: Id)
    requires
        idx < 8,
    ensures
        r == focus_order()[idx as int],
{
    match idx {
        0 => Id::BackgroundPicker,
        1 => Id::ForegroundPicker,
        2 => Id::CurveControls,
        3 => Id::WeightControls,
        4 => Id::AccentControls,
        5 => Id::ExtendedAccentControls,
        6 => Id::HueOverrides,
        _ => Id::Validation,
    }
}

/// Manages focus state for Tab navigation in the main activity.
pub struct FocusManager {
    current_idx: usize,
}

impl View for FocusManager {
    type V = nat;

    /// Position of the focused component in the Tab order.
    closed spec fn view(&self) -> nat {
        self.current_idx as nat
    }
}

impl FocusManager {
    #[verifier::type_invariant]
    spec fn inv(self) -> bool {
        self.current_idx < 8
    }

    /// A manager focused on the first component (the background picker).
    pub fn new() -> (r: Self)
        ensures
            r@ == 0,
    {
        FocusManager { current_idx: 0 }
    }

    /// Get the current focus component ID.
    pub fn current_focus(&self) -> (r: Id)
        ensures
            self@ < 8,
            r == focus_order()[self@ as int],
    {
        proof {
            use_type_invariant(self);
        }
        focus_id_at(self.current_idx)
    }

    /// Move focus to next component and return its ID.
    pub fn focus_next(&mut self) -> (r: Id)
        ensures
            final(self)@ == (old(self)@ + 1) % 8,
            r == focus_order()[final(self)@ as int],
    {
        proof {
            use_type_invariant(&*self);
        }
        self.current_idx = (self.current_idx + 1) % 8;
        self.current_focus()
    }

    /// Move focus to previous component and return its ID.
    pub fn focus_prev(&mut self) -> (r: Id)
        ensures
            final(self)@ == (old(self)@ + 7) % 8,
            r == focus_order()[final(self)@ as int],
    {
        proof {
            use_type_invariant(&*self);
        }
        self.current_idx = (self.current_idx + 7) % 8;
        self.current_focus()
    }
}

impl Default for FocusManager {
    fn default() -> (r: Self)
        ensures
            r@ == 0,
    {
        Self::new()
    }
}

/// Tab then Shift-Tab (or the reverse) leaves the focus where it was, and
/// eight Tabs go once around all focusable components.
pub proof fn lemma_focus_manager_laws(i: nat, n: nat)
    requires
        i < 8,
    ensures
        ((i + 1) % 8 + 7) % 8 == i,
        ((i + 7) % 8 + 1) % 8 == i,
        (i + n) % 8 == i <==> n % 8 == 0,
{
}

} // verus!
