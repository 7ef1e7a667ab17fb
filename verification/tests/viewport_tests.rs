use mycad::commands::CommandKind;
use mycad::input::{Gesture, InputMap, Key, Modifiers, MouseButtonKind};
use mycad::selection::EntityId;
use mycad::viewport::{
    key_action, unhandled_key_action, viewport_click, KeyAction, KeyContext, ViewportAction,
};

fn no_mods() -> Modifiers {
    Modifiers { alt: false, ctrl: false, shift: false, mac_cmd: false, command: false }
}

fn ctrl() -> Modifiers {
    Modifiers { ctrl: true, command: true, ..no_mods() }
}

/// An idle click or drag in the viewport with the standard bindings.
fn idle(gesture: Gesture, button: MouseButtonKind, m: Modifiers, hit: Option<EntityId>) -> ViewportAction {
    viewport_click(&InputMap::standard(), gesture, Some(button), m, false, false, false, false, false, false, hit)
}

#[test]
fn clicks_select_replace_toggle_and_clear() {
    let id = Some(EntityId(4));
    assert_eq!(idle(Gesture::Click, MouseButtonKind::Left, no_mods(), id), ViewportAction::Replace(EntityId(4)));
    assert_eq!(idle(Gesture::Click, MouseButtonKind::Left, no_mods(), None), ViewportAction::ClearSelection);
    assert_eq!(idle(Gesture::Click, MouseButtonKind::Left, ctrl(), id), ViewportAction::Toggle(EntityId(4)));
    let shift = Modifiers { shift: true, ..no_mods() };
    assert_eq!(idle(Gesture::Click, MouseButtonKind::Left, shift, id), ViewportAction::Toggle(EntityId(4)));
    assert_eq!(idle(Gesture::Click, MouseButtonKind::Left, ctrl(), None), ViewportAction::Nothing);
    assert_eq!(idle(Gesture::Click, MouseButtonKind::Middle, no_mods(), id), ViewportAction::Nothing);
}

#[test]
fn right_click_opens_the_menu_and_an_open_menu_takes_clicks() {
    assert_eq!(idle(Gesture::Click, MouseButtonKind::Right, no_mods(), None), ViewportAction::OpenMenu);
    let map = InputMap::standard();
    let open = viewport_click(&map, Gesture::Click, Some(MouseButtonKind::Left), no_mods(), false, false, false, false, true, false, Some(EntityId(1)));
    assert_eq!(open, ViewportAction::Nothing);
}

#[test]
fn drags_pan_or_start_a_window() {
    assert_eq!(idle(Gesture::Drag, MouseButtonKind::Middle, no_mods(), None), ViewportAction::Pan);
    assert_eq!(idle(Gesture::Drag, MouseButtonKind::Left, no_mods(), None), ViewportAction::BoxSelect { toggle: false });
    assert_eq!(idle(Gesture::Drag, MouseButtonKind::Left, ctrl(), None), ViewportAction::BoxSelect { toggle: true });
    let map = InputMap::standard();
    let during_box = viewport_click(&map, Gesture::Click, Some(MouseButtonKind::Left), no_mods(), false, false, false, false, false, true, Some(EntityId(2)));
    assert_eq!(during_box, ViewportAction::Nothing);
}

#[test]
fn double_click_enters_a_block_or_zooms() {
    let map = InputMap::standard();
    assert_eq!(idle(Gesture::DoubleClick, MouseButtonKind::Left, no_mods(), Some(EntityId(9))), ViewportAction::EnterBlock(EntityId(9)));
    assert_eq!(idle(Gesture::DoubleClick, MouseButtonKind::Left, no_mods(), None), ViewportAction::ZoomExtents);
    let running = viewport_click(&map, Gesture::DoubleClick, Some(MouseButtonKind::Left), no_mods(), false, false, false, true, false, false, Some(EntityId(9)));
    assert_eq!(running, ViewportAction::ZoomExtents);
}

#[test]
fn commands_take_points_and_erase_picks() {
    let map = InputMap::standard();
    let point = viewport_click(&map, Gesture::Click, Some(MouseButtonKind::Left), ctrl(), false, true, false, true, false, false, Some(EntityId(3)));
    assert_eq!(point, ViewportAction::CommandPoint);
    let pan = viewport_click(&map, Gesture::Drag, Some(MouseButtonKind::Middle), no_mods(), false, true, false, true, false, false, None);
    assert_eq!(pan, ViewportAction::Pan);
    let erase = viewport_click(&map, Gesture::Click, Some(MouseButtonKind::Left), no_mods(), false, false, true, true, false, false, Some(EntityId(3)));
    assert_eq!(erase, ViewportAction::Erase(EntityId(3)));
    let empty = viewport_click(&map, Gesture::Click, Some(MouseButtonKind::Left), no_mods(), false, false, true, true, false, false, None);
    assert_eq!(empty, ViewportAction::Nothing);
}

fn context() -> KeyContext {
    KeyContext {
        menu_open: false,
        renaming: false,
        picking_base: false,
        command_active: false,
        measurement_shown: false,
        block_edit_active: false,
        block_dialog_open: false,
        can_close: false,
        last_command: None,
    }
}

#[test]
fn shortcut_keys_come_first() {
    let ctx = context();
    assert_eq!(key_action(ctx, &[Key::Z], ctrl()).action, KeyAction::Undo);
    assert_eq!(key_action(ctx, &[Key::Y], ctrl()).action, KeyAction::Redo);
    let ctrl_shift = Modifiers { shift: true, ..ctrl() };
    assert_eq!(key_action(ctx, &[Key::Z], ctrl_shift).action, KeyAction::Redo);
    assert_eq!(key_action(ctx, &[Key::S], ctrl_shift).action, KeyAction::SaveAs);
    assert_eq!(key_action(ctx, &[Key::S], ctrl()).action, KeyAction::Save);
    assert_eq!(key_action(ctx, &[Key::O], ctrl()).action, KeyAction::Open);
    let toggles = key_action(ctx, &[Key::F3, Key::F8], no_mods());
    assert!(toggles.toggle_osnap && toggles.toggle_ortho);
    assert_eq!(toggles.action, KeyAction::ToFields);
}

#[test]
fn escape_follows_its_priority_chain() {
    let busy = KeyContext { menu_open: true, renaming: true, command_active: true, ..context() };
    assert_eq!(key_action(busy, &[Key::Escape], no_mods()).action, KeyAction::CloseMenu);
    let rename = KeyContext { menu_open: false, ..busy };
    assert_eq!(key_action(rename, &[Key::Escape], no_mods()).action, KeyAction::CancelRename);
    let command = KeyContext { renaming: false, ..rename };
    assert_eq!(key_action(command, &[Key::Escape], no_mods()).action, KeyAction::CancelCommand);
    let block = KeyContext { block_edit_active: true, ..context() };
    assert_eq!(key_action(block, &[Key::Escape], no_mods()).action, KeyAction::LeaveBlock);
    let dialog = KeyContext { block_dialog_open: true, ..block };
    assert_eq!(key_action(dialog, &[Key::Escape], no_mods()).action, KeyAction::ToFields);
    let menu = KeyContext { menu_open: true, ..context() };
    assert_eq!(key_action(menu, &[Key::L], no_mods()).action, KeyAction::Nothing);
}

#[test]
fn unhandled_keys_start_tools_and_repeat_measurements() {
    let ctx = context();
    assert_eq!(unhandled_key_action(ctx, &[Key::L], no_mods()), KeyAction::Start(CommandKind::Line));
    assert_eq!(unhandled_key_action(ctx, &[Key::L], ctrl()), KeyAction::Nothing);
    assert_eq!(unhandled_key_action(ctx, &[Key::C], no_mods()), KeyAction::Start(CommandKind::Circle));
    let closable = KeyContext { can_close: true, command_active: true, ..ctx };
    assert_eq!(unhandled_key_action(closable, &[Key::C], no_mods()), KeyAction::ClosePolyline);
    assert_eq!(unhandled_key_action(closable, &[Key::Enter], no_mods()), KeyAction::Finish);
    let measured = KeyContext { last_command: Some(CommandKind::Distance), ..ctx };
    assert_eq!(unhandled_key_action(measured, &[Key::Enter], no_mods()), KeyAction::Start(CommandKind::Distance));
    let drawn = KeyContext { last_command: Some(CommandKind::Line), ..ctx };
    assert_eq!(unhandled_key_action(drawn, &[Key::Enter], no_mods()), KeyAction::Nothing);
    assert_eq!(unhandled_key_action(ctx, &[Key::D], no_mods()), KeyAction::Start(CommandKind::Distance));
}
