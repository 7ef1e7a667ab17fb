//! Editor decisions around the active command: what choosing a tool does,
//! what Finish does, and the window and status-bar captions.

use crate::command_state::{area_boundary, open_polyline, selecting_objects, AreaState, Cmd, CommandState};
use crate::commands::{command_label, command_modify, is_measure_kind, CommandKind, ModifyKind, ModifyPhase};
use vstd::prelude::*;

verus! {

/// What choosing a tool does.
#[derive(Debug, Clone, Copy, PartialEq, Eq, Structural)]
pub enum ToolSwitch {
    /// Nothing: no tool was chosen, or it already runs.
    Keep,
    /// Erase with objects selected erases them at once (after cancelling
    /// the running command, when `cancel_current`).
    EraseSelection { cancel_current: bool },
    /// The tool starts, after cancelling the running command when
    /// `cancel_current`. A measurement closes the open edit transaction;
    /// any other tool opens a new one.
    Start { cancel_current: bool, measure: bool },
}

pub open spec fn tool_switch_spec(current: CommandKind, requested: CommandKind, has_selection: bool) -> ToolSwitch {
    if requested == CommandKind::Idle || current == requested {
        ToolSwitch::Keep
    } else if requested == CommandKind::Erase && has_selection {
        ToolSwitch::EraseSelection { cancel_current: current != CommandKind::Idle }
    } else {
        ToolSwitch::Start {
            cancel_current: current != CommandKind::Idle,
            measure: is_measure_kind(requested),
        }
    }
}

/// Choosing a different tool cancels the running one with the same cleanup
/// as Esc, then starts the new tool at once.
pub fn tool_switch(current: CommandKind, requested: CommandKind, has_selection: bool) -> (switch:
    ToolSwitch)
    ensures
        switch == tool_switch_spec(current, requested, has_selection),
{
    if requested == CommandKind::Idle || current == requested {
        return ToolSwitch::Keep;
    }
    let cancel_current = current.is_active();
    if requested == CommandKind::Erase && has_selection {
        return ToolSwitch::EraseSelection { cancel_current };
    }
    ToolSwitch::Start { cancel_current, measure: requested.is_measure() }
}

/// What Finish (Enter, or the menu row) does.
#[derive(Debug, Clone, Copy, PartialEq, Eq, Structural)]
pub enum FinishPlan {
    /// Return to idle.
    Idle,
    /// Take the selection as the modification's targets.
    ConfirmSelection,
    /// Measure the area of the boundary picked so far.
    MeasureArea,
    /// Commit the open polyline, then return to idle.
    CommitPolyline,
    /// Nothing happens.
    Nothing,
}

pub open spec fn finish_plan_spec<P>(c: Cmd<P>) -> FinishPlan {
    match c {
        Cmd::Modify { kind, phase, .. } => if phase == ModifyPhase::Selecting {
            if kind == ModifyKind::Erase {
                FinishPlan::Idle
            } else {
                FinishPlan::ConfirmSelection
            }
        } else {
            FinishPlan::Nothing
        },
        Cmd::AreaPoints { vertices } => if vertices.len() >= 3 {
            FinishPlan::MeasureArea
        } else {
            FinishPlan::Idle
        },
        Cmd::Polyline { vertices } => if vertices.len() >= 2 {
            FinishPlan::CommitPolyline
        } else {
            FinishPlan::Nothing
        },
        _ => FinishPlan::Idle,
    }
}

/// Finish: Erase stops picking; a modification picking objects takes the
/// selection; an area with three points or more is measured; a polyline
/// with two vertices or more is committed; a shorter polyline and a
/// modification past its selection wait; anything else returns to idle.
pub fn finish_plan<P: Copy>(state: &CommandState<P>) -> (plan: FinishPlan)
    ensures
        plan == finish_plan_spec(state@),
{
    if state.is_erase_picking() {
        return FinishPlan::Idle;
    }
    if state.is_selecting_objects() {
        return FinishPlan::ConfirmSelection;
    }
    match state {
        CommandState::Area(AreaState::Points { vertices }) => {
            if vertices.len() >= 3 {
                FinishPlan::MeasureArea
            } else {
                FinishPlan::Idle
            }
        },
        CommandState::Polyline(s) => {
            if s.vertices.len() >= 2 {
                FinishPlan::CommitPolyline
            } else {
                FinishPlan::Nothing
            }
        },
        CommandState::Modify(_) => FinishPlan::Nothing,
        _ => FinishPlan::Idle,
    }
}

/// Whether "undo last point" applies to a command kind: lines, polylines,
/// area boundaries and modifications.
pub fn undo_applies(kind: CommandKind) -> (applies: bool)
    ensures
        applies == (kind == CommandKind::Line || kind == CommandKind::Polyline || kind
            == CommandKind::Area || command_modify(kind) is Some),
{
    match kind {
        CommandKind::Line | CommandKind::Polyline | CommandKind::Area => true,
        _ => kind.is_modify(),
    }
}

/// The window title: the drawing's file name, starred when it has unsaved
/// changes.
pub open spec fn title_text(document: Option<Seq<char>>, dirty: bool) -> Seq<char> {
    match document {
        Some(name) => "MyCad — "@ + name + if dirty {
            "*"@
        } else {
            ""@
        },
        None => if dirty {
            "MyCad — (untitled)*"@
        } else {
            "MyCad"@
        },
    }
}

pub fn window_title(document: Option<&str>, dirty: bool) -> (title: String)
    ensures
        title@ == title_text(
            match document {
                Some(d) => Some(d@),
                None => None,
            },
            dirty,
        ),
{
    match document {
        Some(name) => {
            let mut title = "MyCad — ".to_string();
            title.append(name);
            if dirty {
                title.append("*");
            } else {
                proof {
                    reveal_strlit("");
                }
                assert(title@ =~= title@ + ""@);
            }
            title
        },
        None => {
            if dirty {
                "MyCad — (untitled)*".to_string()
            } else {
                "MyCad".to_string()
            }
        },
    }
}

/// The file shown in the status bar: the open drawing, else the one being
/// loaded, else "(no file)"; starred when there are unsaved changes.
pub open spec fn file_label_text(document: Option<Seq<char>>, loading: Option<Seq<char>>, dirty: bool) -> Seq<char> {
    let name = match document {
        Some(d) => d,
        None => match loading {
            Some(l) => l,
            None => "(no file)"@,
        },
    };
    if dirty {
        name + "*"@
    } else {
        name
    }
}

pub fn status_file_label(document: Option<&str>, loading: Option<&str>, dirty: bool) -> (label:
    String)
    ensures
        label@ == file_label_text(
            match document {
                Some(d) => Some(d@),
                None => None,
            },
            match loading {
                Some(l) => Some(l@),
                None => None,
            },
            dirty,
        ),
{
    let mut label = match document {
        Some(d) => d.to_string(),
        None => match loading {
            Some(l) => l.to_string(),
            None => "(no file)".to_string(),
        },
    };
    if dirty {
        label.append("*");
    }
    label
}


/// The status after a modification or drawing step completes.
pub fn completion_status(kind: CommandKind) -> (status: String)
    ensures
        status@ == command_label(kind) + " complete"@,
{
    let mut status = kind.label().to_string();
    status.append(" complete");
    status
}

/// The status after erasing.
pub const ERASE_COMPLETE: &'static str = "Erase complete";

/// The status after a command is canceled.
pub const COMMAND_CANCELED: &'static str = "Command canceled";


/// What Finish does follows from what the command holds: it measures
/// exactly when there is an area boundary to measure (the one
/// `measurement_points` hands out), commits exactly when there is an open
/// polyline to commit (the one `finish_vertices` hands out), and takes the
/// selection exactly when a modification other than Erase is picking
/// objects.
pub proof fn lemma_finish_follows_the_command<P>(c: Cmd<P>)
    ensures
        finish_plan_spec(c) == FinishPlan::MeasureArea <==> area_boundary(c) is Some,
        finish_plan_spec(c) == FinishPlan::CommitPolyline <==> open_polyline(c) is Some,
        finish_plan_spec(c) == FinishPlan::ConfirmSelection <==> (selecting_objects(c)
            && !(c matches Cmd::Modify { kind: ModifyKind::Erase, .. })),
{
}

} // verus!
