//! What the global shortcut does to the main window.

use vstd::prelude::*;

verus! {

/// What to do with the main window.
#[derive(Clone, Copy, Debug, PartialEq, Eq, Structural)]
pub enum WindowAction {
    /// Hide it.
    Hide,
    /// Show it and give it the focus.
    ShowAndFocus,
}

/// The action for a window whose visibility was asked for: `None` stands for
/// a query that failed, and counts as not visible.
pub open spec fn toggled(visible: Option<bool>) -> WindowAction {
    if visible == Some(true) {
        WindowAction::Hide
    } else {
        WindowAction::ShowAndFocus
    }
}

/// A visible window is hidden; any other is shown and focused.
pub fn toggle_action(visible: Option<bool>) -> (action: WindowAction)
    ensures
        action == toggled(visible),
{
    match visible {
        Some(true) => WindowAction::Hide,
        _ => WindowAction::ShowAndFocus,
    }
}

} // verus!
