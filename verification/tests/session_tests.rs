use mycad::blocks::{is_on_path, BlocksPanel};
use mycad::command_state::{CommandState, PointCheck};
use mycad::commands::{CommandKind, ModifyKind, ModifyPhase};
use mycad::file_names::{drawing_copy_name, drawing_stem_name};
use mycad::history::{Edit, History, Transaction};
use mycad::input::{
    apply_modifiers, capture_binding, display_key_name, key_from_name, Binding, Gesture,
    InputAction, InputMap, Key, Modifiers, MouseButtonKind, PointerPress,
};
use mycad::selection::EntityId;
use mycad::session::{
    finish_plan, status_file_label, tool_switch, undo_applies, window_title, FinishPlan,
    ToolSwitch,
};
use mycad::text::{
    chars_of, decimal_string, eq_ignore_case, find_text, lowercase, normalize, string_of,
};

type P = (f64, f64);

fn no_mods() -> Modifiers {
    Modifiers { alt: false, ctrl: false, shift: false, mac_cmd: false, command: false }
}

#[test]
fn choosing_a_tool_from_idle_starts_it() {
    assert_eq!(
        tool_switch(CommandKind::Idle, CommandKind::Line, false),
        ToolSwitch::Start { cancel_current: false, measure: false }
    );
    let mut command: CommandState<P> = CommandState::Idle;
    command.start_line();
    assert_eq!(command.kind(), CommandKind::Line);
    assert!(command.is_active());
}

#[test]
fn choosing_another_tool_cancels_the_running_one() {
    assert_eq!(
        tool_switch(CommandKind::Line, CommandKind::Circle, false),
        ToolSwitch::Start { cancel_current: true, measure: false }
    );
    assert_eq!(
        tool_switch(CommandKind::Line, CommandKind::Distance, true),
        ToolSwitch::Start { cancel_current: true, measure: true }
    );
    assert_eq!(
        tool_switch(CommandKind::Move, CommandKind::Copy, true),
        ToolSwitch::Start { cancel_current: true, measure: false }
    );
}

#[test]
fn choosing_the_running_tool_keeps_it() {
    assert_eq!(tool_switch(CommandKind::Line, CommandKind::Line, false), ToolSwitch::Keep);
    assert_eq!(tool_switch(CommandKind::Circle, CommandKind::Idle, true), ToolSwitch::Keep);
}

#[test]
fn erase_with_a_selection_erases_at_once() {
    assert_eq!(
        tool_switch(CommandKind::Idle, CommandKind::Erase, true),
        ToolSwitch::EraseSelection { cancel_current: false }
    );
    assert_eq!(
        tool_switch(CommandKind::Line, CommandKind::Erase, true),
        ToolSwitch::EraseSelection { cancel_current: true }
    );
    assert_eq!(
        tool_switch(CommandKind::Idle, CommandKind::Erase, false),
        ToolSwitch::Start { cancel_current: false, measure: false }
    );
}

#[test]
fn finish_plans_follow_the_command() {
    let mut command: CommandState<P> = CommandState::Idle;
    assert_eq!(finish_plan(&command), FinishPlan::Idle);
    command.start_polyline();
    assert_eq!(finish_plan(&command), FinishPlan::Nothing);
    command.accept_point((0.0, 0.0), PointCheck::Fits);
    command.accept_point((1.0, 0.0), PointCheck::Fits);
    assert_eq!(finish_plan(&command), FinishPlan::CommitPolyline);
    command.start_modify(ModifyKind::Move, Vec::new());
    assert_eq!(finish_plan(&command), FinishPlan::ConfirmSelection);
    command.start_modify(ModifyKind::Erase, vec![EntityId(1)]);
    assert_eq!(finish_plan(&command), FinishPlan::Idle);
    command.start_modify(ModifyKind::Rotate, vec![EntityId(1)]);
    assert_eq!(finish_plan(&command), FinishPlan::Nothing);
    command.start_area();
    assert_eq!(finish_plan(&command), FinishPlan::Idle);
}

#[test]
fn undo_last_point_applies_to_point_chains_and_modifications() {
    assert!(undo_applies(CommandKind::Line));
    assert!(undo_applies(CommandKind::Polyline));
    assert!(undo_applies(CommandKind::Area));
    assert!(undo_applies(CommandKind::Scale));
    assert!(undo_applies(CommandKind::Erase));
    assert!(!undo_applies(CommandKind::Circle));
    assert!(!undo_applies(CommandKind::Idle));
    assert!(!undo_applies(CommandKind::Distance));
}

#[test]
fn window_title_and_status_label() {
    assert_eq!(window_title(None, false), "MyCad");
    assert_eq!(window_title(None, true), "MyCad — (untitled)*");
    assert_eq!(window_title(Some("plan.dwg"), false), "MyCad — plan.dwg");
    assert_eq!(window_title(Some("plan.dwg"), true), "MyCad — plan.dwg*");
    assert_eq!(status_file_label(None, None, false), "(no file)");
    assert_eq!(status_file_label(None, Some("big.dwg"), false), "big.dwg");
    assert_eq!(status_file_label(Some("a.dxf"), Some("big.dwg"), true), "a.dxf*");
}

#[test]
fn mirror_axis_preview_and_start_vertex() {
    let mut command: CommandState<P> = CommandState::Idle;
    assert_eq!(command.start_vertex(), None);
    command.start_line();
    command.accept_point((2.0, 3.0), PointCheck::Fits);
    assert_eq!(command.start_vertex(), Some((2.0, 3.0)));
    command.start_modify(ModifyKind::Mirror, vec![EntityId(7)]);
    assert_eq!(command.preview_mirror_axis(Some((1.0, 1.0))), None);
    command.accept_point((0.0, 0.0), PointCheck::Fits);
    assert!(matches!(
        &command,
        CommandState::Modify(state) if state.phase == ModifyPhase::MirrorSecond
    ));
    assert_eq!(command.preview_mirror_axis(Some((1.0, 1.0))), Some(((0.0, 0.0), (1.0, 1.0))));
    assert_eq!(command.preview_mirror_axis(None), None);
}

#[test]
fn bindings_are_shown_with_their_modifiers() {
    let ctrl_e = Binding::key("e").with_command();
    assert_eq!(ctrl_e.display_text(false), "Ctrl+E");
    assert_eq!(ctrl_e.display_text(true), "Cmd+E");
    let click = Binding::click(MouseButtonKind::Left).with_shift();
    assert_eq!(click.display_text(false), "Shift+Left click");
    assert_eq!(Binding::drag(MouseButtonKind::Middle).display_text(false), "Middle drag");
    assert_eq!(
        Binding::double_click(MouseButtonKind::Right).display_text(false),
        "Right double-click"
    );
    assert_eq!(display_key_name(" Escape "), "Esc");
    assert_eq!(display_key_name("page_up"), "Page Up");
    assert_eq!(display_key_name("f3"), "F3");
    assert_eq!(display_key_name("é"), "É");
    assert_eq!(display_key_name(""), "");
}

#[test]
fn key_names_are_read_loosely() {
    assert_eq!(key_from_name("  ESC "), Some(Key::Escape));
    assert_eq!(key_from_name("Return"), Some(Key::Enter));
    assert_eq!(key_from_name("del"), Some(Key::Delete));
    assert_eq!(key_from_name("not a key"), None);
}

#[test]
fn captured_bindings_take_the_held_modifiers() {
    let ctrl = Modifiers { ctrl: true, ..no_mods() };
    let key = capture_binding(Some("e"), &[], ctrl, false, false).expect("a key binding");
    assert_eq!(key.gesture, Gesture::Key);
    assert!(key.command && !key.ctrl);
    let presses = [
        PointerPress { button: MouseButtonKind::Left, double_clicked: false, clicked: false },
        PointerPress { button: MouseButtonKind::Middle, double_clicked: false, clicked: true },
    ];
    let drag = capture_binding(None, &presses, no_mods(), false, true).expect("a drag");
    assert_eq!(drag.gesture, Gesture::Drag);
    assert_eq!(drag.mouse, Some(MouseButtonKind::Middle));
    let click = capture_binding(None, &presses, no_mods(), false, false).expect("a click");
    assert_eq!(click.gesture, Gesture::Click);
    assert!(capture_binding(None, &presses[..1], no_mods(), false, false).is_none());

    let mut binding = Binding::click(MouseButtonKind::Left);
    apply_modifiers(&mut binding, Modifiers { ctrl: true, shift: true, ..no_mods() }, true);
    assert!(binding.ctrl && binding.shift && !binding.command);
}

#[test]
fn standard_zoom_extents_key_fires_with_command() {
    let map = InputMap::standard();
    let command = Modifiers { ctrl: true, command: true, ..no_mods() };
    assert!(map.key_pressed(InputAction::ZoomExtents, &[Key::E], command, false));
    assert!(!map.key_pressed(InputAction::ZoomExtents, &[Key::E], no_mods(), false));
    assert!(!map.key_pressed(InputAction::ZoomExtents, &[], command, false));
    assert_eq!(map.pointer_button_for_drag(InputAction::Pan), Some(MouseButtonKind::Middle));
}

#[test]
fn text_helpers() {
    assert_eq!(lowercase("AbC-É"), "abc-É");
    assert!(eq_ignore_case("Motor", "MOTOR"));
    assert!(!eq_ignore_case("Motor", "Motors"));
    assert_eq!(normalize("  PageUp \t"), vec!['p', 'a', 'g', 'e', 'u', 'p']);
    assert!(find_text(&chars_of("Door Frame"), &chars_of("r F")));
    assert!(!find_text(&chars_of("Door"), &chars_of("Doors")));
    assert!(find_text(&chars_of("Door"), &chars_of("")));
    assert_eq!(string_of(&chars_of("Window"), 1, 4), "ind");
    assert_eq!(decimal_string(0), "0");
    assert_eq!(decimal_string(1205), "1205");
    assert_eq!(decimal_string(u64::MAX), "18446744073709551615");
}

#[test]
fn copy_and_stem_names() {
    assert_eq!(drawing_copy_name("plan.dwg", "dwg"), "plan-MyCad.dwg");
    assert_eq!(drawing_copy_name("plan-MyCad.dwg", "dwg"), "plan-MyCad.dwg");
    assert_eq!(drawing_copy_name("(untitled)", "dwg"), "drawing-MyCad.dwg");
    assert_eq!(drawing_stem_name("site.plan.dxf", "pdf"), "site.plan.pdf");
    assert_eq!(drawing_stem_name("", "dxf"), "drawing.dxf");
}

#[test]
fn history_peeks_and_bounded_undo() {
    type E = Edit<&'static str, u64, String>;
    let mut history: History<&'static str, u64, String> = History::default();
    assert!(history.peek_undo().is_none());
    history.record(E::InsertEntity { space: "model", index: 0, entity: 1 });
    history.record(E::RenameBlock { before: "A".to_string(), after: "B".to_string() });
    assert_eq!(history.undo_len(), 2);
    let top: &Transaction<&'static str, u64, String> = history.peek_undo().expect("a step");
    assert!(top.is_rename_only());
    assert_eq!(top.rename_edits(), vec![("A".to_string(), "B".to_string())]);
    assert!(top.edits[0].is_rename());
    assert!(history.undo_beyond(2).is_none());
    assert_eq!(history.undo_len(), 2);
    let undone = history.undo_beyond(1).expect("one step above the mark");
    assert_eq!(undone.rename_edits(), vec![("B".to_string(), "A".to_string())]);
    assert_eq!(history.undo_len(), 1);
    assert!(history.peek_redo().is_some_and(|t| t.is_rename_only()));
}

#[test]
fn block_panel_search_and_paths() {
    let mut panel = BlocksPanel::default();
    assert_eq!(panel.search(), "");
    panel.set_search("door".to_string());
    assert_eq!(panel.search(), "door");
    panel.start_rename("Door".to_string());
    panel.edit_draft("Door 2".to_string(), false);
    let rename = panel.renaming().expect("renaming");
    assert_eq!(rename.draft, "Door 2");
    assert!(!rename.select_all);
    let path = vec!["Frame".to_string(), "Door".to_string()];
    assert!(is_on_path(&path, "DOOR"));
    assert!(!is_on_path(&path, "Window"));
}
