//! Outcomes and targets of the Settings window.

use crate::input::InputAction;
use vstd::prelude::*;

verus! {

/// What the Settings window asked for this frame.
#[derive(Debug, Clone, Copy, PartialEq, Eq, Structural)]
pub enum SettingsAction {
    /// The window stays as it is.
    Nothing,
    Apply,
    Cancel,
}

/// The binding slot a shortcut capture fills.
#[derive(Debug, Clone, Copy, PartialEq, Eq, Structural)]
pub enum CaptureTarget {
    Replace { action: InputAction, index: usize },
    Add { action: InputAction },
}

impl CaptureTarget {
    /// The action whose binding is captured.
    pub open spec fn action_of(self) -> InputAction {
        match self {
            CaptureTarget::Replace { action, .. } => action,
            CaptureTarget::Add { action } => action,
        }
    }

    /// Whether the captured action is normally bound to a drag.
    pub fn prefers_drag(self) -> (drag: bool)
        ensures
            drag == (self.action_of() == InputAction::Pan),
    {
        match self {
            CaptureTarget::Replace { action, .. } | CaptureTarget::Add { action } => action.prefers_drag(),
        }
    }
}

/// The tabs of the Settings window.
#[derive(Debug, Clone, Copy, PartialEq, Eq, Structural)]
pub enum SettingsTab {
    Viewport,
    Display,
    Shortcuts,
}

impl Default for SettingsTab {
    fn default() -> (tab: Self)
        ensures
            tab == SettingsTab::Viewport,
    {
        SettingsTab::Viewport
    }
}

} // verus!
