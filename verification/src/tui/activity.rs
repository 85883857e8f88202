//! Screens of the editor and the transitions between them.

use vstd::prelude::*;

verus! {

/// Exit reasons for activity transitions.
#[derive(Debug, Clone, Copy, PartialEq, Eq, Structural)]
pub enum ExitReason {
    Quit,
    SwitchToMain,
    SwitchToCodePreview,
}

/// Activity types available in the application.
#[derive(Debug, Clone, Copy, PartialEq, Eq, Structural)]
pub enum ActivityType {
    Main,
    CodePreview,
}

/// The screen to show after one exits: `None` ends the session, the switch
/// reasons name their target screen.
pub fn next_activity(reason: ExitReason) -> (r: Option<ActivityType>)
    ensures
        reason == ExitReason::Quit <==> r is None,
        reason == ExitReason::SwitchToMain <==> r == Some(ActivityType::Main),
        reason == ExitReason::SwitchToCodePreview <==> r == Some(ActivityType::CodePreview),
{
    match reason {
        ExitReason::Quit => None,
        ExitReason::SwitchToMain => Some(ActivityType::Main),
        ExitReason::SwitchToCodePreview => Some(ActivityType::CodePreview),
    }
}

} // verus!
