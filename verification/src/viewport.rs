//! What a pointer gesture in the drawing viewport does (pick a command
//! point, erase, change the selection, pan, zoom, enter a block, open the
//! viewport menu) and what the window's keyboard shortcuts do.

use vstd::prelude::*;
use crate::commands::{command_label, is_measure_kind, CommandKind};
use crate::input::{
    list_view, pointer_match, Gesture, InputAction, InputMap, InputMapView, Key, Modifiers,
    MouseButtonKind,
};
use crate::selection::EntityId;

verus! {

/// The outcome of a pointer gesture in the viewport.
#[derive(Debug, Clone, Copy, PartialEq, Eq, Structural)]
pub enum ViewportAction {
    Nothing,
    OpenMenu,
    /// The running command takes the point under the cursor.
    CommandPoint,
    ZoomExtents,
    /// Enter the block reference that was double-clicked; when it is no
    /// editable block reference, zoom to extents instead.
    EnterBlock(EntityId),
    /// Erase picks this object and keeps picking.
    Erase(EntityId),
    /// The selection becomes this object alone.
    Replace(EntityId),
    /// This object joins or leaves the selection.
    Toggle(EntityId),
    ClearSelection,
    Pan,
    /// A selection window starts; `toggle` when it adds and removes.
    BoxSelect { toggle: bool },
}

/// Some binding of `action` fires for `gesture` with `button`.
pub open spec fn pointer_fires(
    m: InputMapView,
    action: InputAction,
    gesture: Gesture,
    button: Option<MouseButtonKind>,
    modifiers: Modifiers,
    mac: bool,
) -> bool {
    exists|i: int|
        0 <= i < list_view(m, action).len() && pointer_match(
            #[trigger] list_view(m, action)[i],
            gesture,
            button,
            modifiers,
            mac,
        )
}

/// What a gesture does. An open menu takes every gesture; a right click
/// opens the menu (not while a selection window is being dragged). While a
/// command asks for a point, a left click gives it the point and only
/// panning works besides. While a selection window is dragged nothing else
/// happens. Otherwise: a pan drag pans, a selecting drag starts a window
/// (toggling before replacing); the zoom double click enters the block
/// under the cursor when no command runs, else zooms to extents; while
/// Erase picks, a selecting click erases the object under it; a toggle
/// click toggles the object under it; a replace click selects the object
/// under it alone, or clears the selection over empty space.
pub open spec fn viewport_click_spec(
    m: InputMapView,
    gesture: Gesture,
    button: Option<MouseButtonKind>,
    modifiers: Modifiers,
    mac: bool,
    requests_point: bool,
    erase_picking: bool,
    command_active: bool,
    menu_open: bool,
    box_active: bool,
    hit: Option<EntityId>,
) -> ViewportAction {
    let fires = |action: InputAction| pointer_fires(m, action, gesture, button, modifiers, mac);
    if menu_open {
        ViewportAction::Nothing
    } else if gesture == Gesture::Click && button == Some(MouseButtonKind::Right) && !box_active {
        ViewportAction::OpenMenu
    } else if requests_point {
        if gesture == Gesture::Click && button == Some(MouseButtonKind::Left) {
            ViewportAction::CommandPoint
        } else if gesture == Gesture::Drag && fires(InputAction::Pan) {
            ViewportAction::Pan
        } else {
            ViewportAction::Nothing
        }
    } else if box_active {
        ViewportAction::Nothing
    } else {
        match gesture {
            Gesture::Drag => if fires(InputAction::Pan) {
                ViewportAction::Pan
            } else if fires(InputAction::SelectToggle) {
                ViewportAction::BoxSelect { toggle: true }
            } else if fires(InputAction::SelectReplace) {
                ViewportAction::BoxSelect { toggle: false }
            } else {
                ViewportAction::Nothing
            },
            Gesture::DoubleClick => if fires(InputAction::ZoomExtents) {
                match hit {
                    Some(id) => if command_active {
                        ViewportAction::ZoomExtents
                    } else {
                        ViewportAction::EnterBlock(id)
                    },
                    None => ViewportAction::ZoomExtents,
                }
            } else {
                ViewportAction::Nothing
            },
            Gesture::Click => if erase_picking {
                if fires(InputAction::SelectReplace) || fires(InputAction::SelectToggle) {
                    match hit {
                        Some(id) => ViewportAction::Erase(id),
                        None => ViewportAction::Nothing,
                    }
                } else {
                    ViewportAction::Nothing
                }
            } else if fires(InputAction::SelectToggle) {
                match hit {
                    Some(id) => ViewportAction::Toggle(id),
                    None => ViewportAction::Nothing,
                }
            } else if fires(InputAction::SelectReplace) {
                match hit {
                    Some(id) => ViewportAction::Replace(id),
                    None => ViewportAction::ClearSelection,
                }
            } else {
                ViewportAction::Nothing
            },
            Gesture::Key => ViewportAction::Nothing,
        }
    }
}

/// Whether some binding of `action` fires for a pointer gesture.
fn fires(
    map: &InputMap,
    action: InputAction,
    gesture: Gesture,
    button: Option<MouseButtonKind>,
    modifiers: Modifiers,
    mac: bool,
) -> (fired: bool)
    requires
        gesture != Gesture::Key,
    ensures
        fired == pointer_fires(map@, action, gesture, button, modifiers, mac),
{
    match gesture {
        Gesture::Click => map.clicked(action, button, modifiers, mac),
        Gesture::DoubleClick => map.double_clicked(action, button, modifiers, mac),
        Gesture::Drag => map.dragged(action, button, modifiers, mac),
        Gesture::Key => {
            assert(false);
            false
        },
    }
}

/// Decides what a pointer gesture in the viewport does (see
/// `viewport_click_spec`); `hit` is the object under the cursor.
pub fn viewport_click(
    map: &InputMap,
    gesture: Gesture,
    button: Option<MouseButtonKind>,
    modifiers: Modifiers,
    mac: bool,
    requests_point: bool,
    erase_picking: bool,
    command_active: bool,
    menu_open: bool,
    box_active: bool,
    hit: Option<EntityId>,
) -> (action: ViewportAction)
    ensures
        action == viewport_click_spec(
            map@,
            gesture,
            button,
            modifiers,
            mac,
            requests_point,
            erase_picking,
            command_active,
            menu_open,
            box_active,
            hit,
        ),
{
    if menu_open {
        return ViewportAction::Nothing;
    }
    let is_click = gesture == Gesture::Click;
    if is_click && button == Some(MouseButtonKind::Right) && !box_active {
        return ViewportAction::OpenMenu;
    }
    if requests_point {
        if is_click && button == Some(MouseButtonKind::Left) {
            return ViewportAction::CommandPoint;
        }
        if gesture == Gesture::Drag && fires(map, InputAction::Pan, gesture, button, modifiers, mac) {
            return ViewportAction::Pan;
        }
        return ViewportAction::Nothing;
    }
    if box_active {
        return ViewportAction::Nothing;
    }
    match gesture {
        Gesture::Drag => {
            if fires(map, InputAction::Pan, gesture, button, modifiers, mac) {
                ViewportAction::Pan
            } else if fires(map, InputAction::SelectToggle, gesture, button, modifiers, mac) {
                ViewportAction::BoxSelect { toggle: true }
            } else if fires(map, InputAction::SelectReplace, gesture, button, modifiers, mac) {
                ViewportAction::BoxSelect { toggle: false }
            } else {
                ViewportAction::Nothing
            }
        },
        Gesture::DoubleClick => {
            if fires(map, InputAction::ZoomExtents, gesture, button, modifiers, mac) {
                match hit {
                    Some(id) => if command_active {
                        ViewportAction::ZoomExtents
                    } else {
                        ViewportAction::EnterBlock(id)
                    },
                    None => ViewportAction::ZoomExtents,
                }
            } else {
                ViewportAction::Nothing
            }
        },
        Gesture::Click => {
            if erase_picking {
                if fires(map, InputAction::SelectReplace, gesture, button, modifiers, mac) || fires(
                    map,
                    InputAction::SelectToggle,
                    gesture,
                    button,
                    modifiers,
                    mac,
                ) {
                    match hit {
                        Some(id) => ViewportAction::Erase(id),
                        None => ViewportAction::Nothing,
                    }
                } else {
                    ViewportAction::Nothing
                }
            } else if fires(map, InputAction::SelectToggle, gesture, button, modifiers, mac) {
                match hit {
                    Some(id) => ViewportAction::Toggle(id),
                    None => ViewportAction::Nothing,
                }
            } else if fires(map, InputAction::SelectReplace, gesture, button, modifiers, mac) {
                match hit {
                    Some(id) => ViewportAction::Replace(id),
                    None => ViewportAction::ClearSelection,
                }
            } else {
                ViewportAction::Nothing
            }
        },
        Gesture::Key => ViewportAction::Nothing,
    }
}


/// What the window is showing when keys are pressed.
#[derive(Debug, Clone, Copy, PartialEq, Eq, Structural)]
pub struct KeyContext {
    pub menu_open: bool,
    /// A block is being renamed in the blocks panel.
    pub renaming: bool,
    /// The Create Block dialog waits for a base point.
    pub picking_base: bool,
    pub command_active: bool,
    /// A measurement result is shown.
    pub measurement_shown: bool,
    pub block_edit_active: bool,
    /// A block-edit dialog is open.
    pub block_dialog_open: bool,
    /// The running polyline can be closed.
    pub can_close: bool,
    pub last_command: Option<CommandKind>,
}

/// What the keys pressed this frame ask for, before the numeric fields.
#[derive(Debug, Clone, Copy, PartialEq, Eq, Structural)]
pub enum KeyAction {
    Nothing,
    Undo,
    Redo,
    Open,
    Save,
    SaveAs,
    CloseMenu,
    CancelRename,
    /// Esc while picking a block's base point: back to the Create dialog.
    BackToCreateDialog,
    CancelCommand,
    DismissMeasurement,
    /// Esc in block edit with no dialog open: ask to close the block.
    LeaveBlock,
    /// The keys go to the numeric fields; what they leave unhandled is
    /// decided by `unhandled_key_action`.
    ToFields,
    /// Enter: finish the running command.
    Finish,
    /// C on a polyline that can close.
    ClosePolyline,
    /// Start (or repeat) this command.
    Start(CommandKind),
}

/// The F3 (object snap) and F8 (ortho) switches, and what the other keys do.
#[derive(Debug, Clone, Copy, PartialEq, Eq, Structural)]
pub struct KeyDecision {
    pub toggle_osnap: bool,
    pub toggle_ortho: bool,
    pub action: KeyAction,
}

/// Ctrl, or Command.
pub open spec fn ctrl_held(m: Modifiers) -> bool {
    m.ctrl || m.command
}

/// The shortcut keys, in priority order: Ctrl+Z undo, Ctrl+Y or
/// Ctrl+Shift+Z redo, Ctrl+O open, Ctrl+S save, Ctrl+Shift+S save as; then
/// Esc closes the menu, else cancels a rename, else returns from picking a
/// base point, else cancels the command, else dismisses a measurement, else
/// asks to leave the edited block; with no menu open the keys go on to the
/// numeric fields.
pub open spec fn key_action_spec(ctx: KeyContext, keys: Seq<Key>, m: Modifiers) -> KeyDecision {
    let ctrl = ctrl_held(m);
    let esc = keys.contains(Key::Escape);
    let action = if ctrl && !m.shift && keys.contains(Key::Z) {
        KeyAction::Undo
    } else if ctrl && (keys.contains(Key::Y) || (m.shift && keys.contains(Key::Z))) {
        KeyAction::Redo
    } else if ctrl && !m.shift && keys.contains(Key::O) {
        KeyAction::Open
    } else if ctrl && !m.shift && keys.contains(Key::S) {
        KeyAction::Save
    } else if ctrl && m.shift && keys.contains(Key::S) {
        KeyAction::SaveAs
    } else if esc && ctx.menu_open {
        KeyAction::CloseMenu
    } else if esc && ctx.renaming {
        KeyAction::CancelRename
    } else if esc && ctx.picking_base {
        KeyAction::BackToCreateDialog
    } else if esc && ctx.command_active {
        KeyAction::CancelCommand
    } else if esc && ctx.measurement_shown {
        KeyAction::DismissMeasurement
    } else if esc && ctx.block_edit_active && !ctx.block_dialog_open {
        KeyAction::LeaveBlock
    } else if !ctx.menu_open {
        KeyAction::ToFields
    } else {
        KeyAction::Nothing
    };
    KeyDecision {
        toggle_osnap: keys.contains(Key::F3),
        toggle_ortho: keys.contains(Key::F8),
        action,
    }
}

/// What the keys the numeric fields did not take do: Enter finishes the
/// running command, or with none running repeats the last measurement;
/// without modifiers L, P, C, A, R and D start Line, Polyline, Circle (C
/// closes a polyline that can close), Arc, Rectangle and Distance.
pub open spec fn unhandled_key_spec(ctx: KeyContext, keys: Seq<Key>, m: Modifiers) -> KeyAction {
    let plain = !ctrl_held(m) && !m.alt && !m.shift;
    let enter = keys.contains(Key::Enter);
    if enter && ctx.command_active {
        KeyAction::Finish
    } else if enter && !ctx.command_active && (ctx.last_command matches Some(k) && is_measure_kind(k)) {
        KeyAction::Start(ctx.last_command.unwrap())
    } else if plain && keys.contains(Key::L) {
        KeyAction::Start(CommandKind::Line)
    } else if plain && keys.contains(Key::P) {
        KeyAction::Start(CommandKind::Polyline)
    } else if plain && keys.contains(Key::C) {
        if ctx.can_close {
            KeyAction::ClosePolyline
        } else {
            KeyAction::Start(CommandKind::Circle)
        }
    } else if plain && keys.contains(Key::A) {
        KeyAction::Start(CommandKind::Arc)
    } else if plain && keys.contains(Key::R) {
        KeyAction::Start(CommandKind::Rectangle)
    } else if plain && keys.contains(Key::D) {
        KeyAction::Start(CommandKind::Distance)
    } else {
        KeyAction::Nothing
    }
}

/// Whether `key` is among the keys pressed.
fn pressed(keys: &[Key], key: Key) -> (found: bool)
    ensures
        found == keys@.contains(key),
{
    let mut i: usize = 0;
    while i < keys.len()
        invariant
            i <= keys@.len(),
            forall|k: int| 0 <= k < i ==> keys@[k] != key,
        decreases keys@.len() - i,
    {
        if keys[i] == key {
            assert(keys@[i as int] == key);
            return true;
        }
        i = i + 1;
    }
    false
}

/// Decides what this frame's keys do (see `key_action_spec`).
pub fn key_action(ctx: KeyContext, keys: &[Key], modifiers: Modifiers) -> (decision: KeyDecision)
    ensures
        decision == key_action_spec(ctx, keys@, modifiers),
{
    let ctrl = modifiers.ctrl || modifiers.command;
    let shift = modifiers.shift;
    let esc = pressed(keys, Key::Escape);
    let action = if ctrl && !shift && pressed(keys, Key::Z) {
        KeyAction::Undo
    } else if ctrl && (pressed(keys, Key::Y) || (shift && pressed(keys, Key::Z))) {
        KeyAction::Redo
    } else if ctrl && !shift && pressed(keys, Key::O) {
        KeyAction::Open
    } else if ctrl && !shift && pressed(keys, Key::S) {
        KeyAction::Save
    } else if ctrl && shift && pressed(keys, Key::S) {
        KeyAction::SaveAs
    } else if esc && ctx.menu_open {
        KeyAction::CloseMenu
    } else if esc && ctx.renaming {
        KeyAction::CancelRename
    } else if esc && ctx.picking_base {
        KeyAction::BackToCreateDialog
    } else if esc && ctx.command_active {
        KeyAction::CancelCommand
    } else if esc && ctx.measurement_shown {
        KeyAction::DismissMeasurement
    } else if esc && ctx.block_edit_active && !ctx.block_dialog_open {
        KeyAction::LeaveBlock
    } else if !ctx.menu_open {
        KeyAction::ToFields
    } else {
        KeyAction::Nothing
    };
    KeyDecision {
        toggle_osnap: pressed(keys, Key::F3),
        toggle_ortho: pressed(keys, Key::F8),
        action,
    }
}

/// Decides what keys the numeric fields left unhandled do (see
/// `unhandled_key_spec`).
pub fn unhandled_key_action(ctx: KeyContext, keys: &[Key], modifiers: Modifiers) -> (action: KeyAction)
    ensures
        action == unhandled_key_spec(ctx, keys@, modifiers),
{
    let plain = !(modifiers.ctrl || modifiers.command) && !modifiers.alt && !modifiers.shift;
    let enter = pressed(keys, Key::Enter);
    if enter && ctx.command_active {
        return KeyAction::Finish;
    }
    if enter && !ctx.command_active {
        if let Some(kind) = ctx.last_command {
            if kind.is_measure() {
                return KeyAction::Start(kind);
            }
        }
    }
    if plain && pressed(keys, Key::L) {
        KeyAction::Start(CommandKind::Line)
    } else if plain && pressed(keys, Key::P) {
        KeyAction::Start(CommandKind::Polyline)
    } else if plain && pressed(keys, Key::C) {
        if ctx.can_close {
            KeyAction::ClosePolyline
        } else {
            KeyAction::Start(CommandKind::Circle)
        }
    } else if plain && pressed(keys, Key::A) {
        KeyAction::Start(CommandKind::Arc)
    } else if plain && pressed(keys, Key::R) {
        KeyAction::Start(CommandKind::Rectangle)
    } else if plain && pressed(keys, Key::D) {
        KeyAction::Start(CommandKind::Distance)
    } else {
        KeyAction::Nothing
    }
}


/// The letter key for a capital letter.
pub open spec fn letter_key(c: char) -> Option<Key> {
    if c == 'A' { Some(Key::A) } else if c == 'B' { Some(Key::B) } else if c == 'C' { Some(Key::C) }
    else if c == 'D' { Some(Key::D) } else if c == 'E' { Some(Key::E) } else if c == 'F' { Some(Key::F) }
    else if c == 'G' { Some(Key::G) } else if c == 'H' { Some(Key::H) } else if c == 'I' { Some(Key::I) }
    else if c == 'J' { Some(Key::J) } else if c == 'K' { Some(Key::K) } else if c == 'L' { Some(Key::L) }
    else if c == 'M' { Some(Key::M) } else if c == 'N' { Some(Key::N) } else if c == 'O' { Some(Key::O) }
    else if c == 'P' { Some(Key::P) } else if c == 'Q' { Some(Key::Q) } else if c == 'R' { Some(Key::R) }
    else if c == 'S' { Some(Key::S) } else if c == 'T' { Some(Key::T) } else if c == 'U' { Some(Key::U) }
    else if c == 'V' { Some(Key::V) } else if c == 'W' { Some(Key::W) } else if c == 'X' { Some(Key::X) }
    else if c == 'Y' { Some(Key::Y) } else if c == 'Z' { Some(Key::Z) } else { None }
}

/// The tools with a one-letter hotkey: Line, Polyline, Circle, Arc,
/// Rectangle and Distance.
pub open spec fn hotkey_tool(kind: CommandKind) -> bool {
    kind == CommandKind::Line || kind == CommandKind::Polyline || kind == CommandKind::Circle
        || kind == CommandKind::Arc || kind == CommandKind::Rectangle || kind == CommandKind::Distance
}

/// Each hotkey starts its own tool: pressing, without modifiers, the
/// letter that begins a hotkey tool's label starts that tool (C closes a
/// polyline that can close instead of starting Circle); no two hotkey
/// tools share their letter.
pub proof fn lemma_hotkeys_start_their_tools(ctx: KeyContext, m: Modifiers, kind: CommandKind, other: CommandKind)
    requires
        hotkey_tool(kind),
        !ctrl_held(m) && !m.alt && !m.shift,
        !(kind == CommandKind::Circle && ctx.can_close),
    ensures
        command_label(kind).len() > 0,
        letter_key(command_label(kind)[0]) is Some,
        unhandled_key_spec(ctx, seq![letter_key(command_label(kind)[0]).unwrap()], m)
            == KeyAction::Start(kind),
        hotkey_tool(other) && other != kind ==> command_label(other)[0] != command_label(kind)[0],
{
    reveal_strlit("LINE");
    reveal_strlit("PLINE");
    reveal_strlit("CIRCLE");
    reveal_strlit("ARC");
    reveal_strlit("RECTANGLE");
    reveal_strlit("DIST");
    reveal_strlit("ANGLE");
    reveal_strlit("RADIUS");
    reveal_strlit("AREA");
    reveal_strlit("MOVE");
    reveal_strlit("COPY");
    reveal_strlit("ROTATE");
    reveal_strlit("MIRROR");
    reveal_strlit("SCALE");
    reveal_strlit("ERASE");
    reveal_strlit("Ready");
    let key = letter_key(command_label(kind)[0]).unwrap();
    let keys = seq![key];
    assert(keys[0] == key);
    assert(keys.contains(key));
    assert forall|k: Key| k != key implies !keys.contains(k) by {
        if keys.contains(k) {
            let i = choose|i: int| 0 <= i < keys.len() && keys[i] == k;
            assert(i == 0);
        }
    }
    assert(key != Key::Enter);
}

} // verus!
