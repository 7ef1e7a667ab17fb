//! Outcomes of the block-edit and measurement dialogs.

use vstd::prelude::*;

verus! {

/// What the block-edit toolbar asked for.
#[derive(Debug, Clone, Copy, PartialEq, Eq, Structural)]
pub enum ToolbarAction {
    /// Nothing was clicked.
    Nothing,
    AddToBlock,
    RemoveFromBlock,
    Save,
    SaveAndClose,
    DiscardAndClose,
    /// A breadcrumb: close to this stack depth.
    Breadcrumb(usize),
}

/// The state of the Create Block dialog after a frame.
#[derive(Debug, Clone, Copy, PartialEq, Eq, Structural)]
pub enum CreateDialogResult {
    Open,
    Create,
    Cancel,
    PickPoint,
}

/// The answer to leaving a block with unsaved changes.
#[derive(Debug, Clone, Copy, PartialEq, Eq, Structural)]
pub enum LeaveChoice {
    Save,
    Discard,
    Cancel,
}

/// What a measurement card asked for.
#[derive(Debug, Clone, Copy, PartialEq, Eq, Structural)]
pub enum CardAction {
    /// Nothing was clicked.
    Nothing,
    Copy,
    Close,
}

} // verus!
