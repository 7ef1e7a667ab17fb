use mycad::input::{Binding, Gesture, InputAction, InputMap, Modifiers, MouseButtonKind};

fn mods(ctrl: bool, shift: bool, alt: bool, command: bool) -> Modifiers {
    Modifiers { alt, ctrl, shift, mac_cmd: false, command }
}

const PRIMARY: Option<MouseButtonKind> = Some(MouseButtonKind::Left);

#[test]
fn unmodified_click_does_not_match_ctrl_click() {
    let select = Binding::click(MouseButtonKind::Left);
    let toggle = Binding::click(MouseButtonKind::Left).with_ctrl();
    let none = mods(false, false, false, false);
    let ctrl = mods(true, false, false, true);
    assert!(select.matches_click(PRIMARY, none, false));
    assert!(!select.matches_click(PRIMARY, ctrl, false));
    assert!(toggle.matches_click(PRIMARY, ctrl, false));
    assert!(!toggle.matches_click(PRIMARY, none, false));
}

#[test]
fn shift_and_ctrl_are_distinct_toggle_bindings() {
    let ctrl = Binding::click(MouseButtonKind::Left).with_ctrl();
    let shift = Binding::click(MouseButtonKind::Left).with_shift();
    assert!(!ctrl.conflicts_with(&shift));
    assert!(ctrl.matches_click(PRIMARY, mods(true, false, false, true), false));
    assert!(shift.matches_click(PRIMARY, mods(false, true, false, false), false));
    assert!(!ctrl.matches_click(PRIMARY, mods(false, true, false, false), false));
}

#[test]
fn standard_map_includes_left_drag_select_without_conflicts() {
    let map = InputMap::standard();
    assert!(map.conflicts().is_empty());
    assert!(map
        .bindings_for(InputAction::SelectReplace)
        .iter()
        .any(|b| b.gesture == Gesture::Drag && b.mouse == Some(MouseButtonKind::Left)));
    assert!(map.dragged(InputAction::SelectReplace, PRIMARY, mods(false, false, false, false), false));
    assert!(!map.dragged(InputAction::Pan, PRIMARY, mods(false, false, false, false), false));
}

#[test]
fn conflict_detection_finds_duplicate_shortcuts() {
    let mut map = InputMap::standard();
    map.bindings_for_mut(InputAction::SelectClear)
        .push(Binding::click(MouseButtonKind::Left));
    let conflicts = map.conflicts();
    assert!(conflicts.iter().any(|(a, b, _)| (*a == InputAction::SelectReplace
        && *b == InputAction::SelectClear)
        || (*a == InputAction::SelectClear && *b == InputAction::SelectReplace)));
}

#[test]
fn sanitize_restores_missing_actions() {
    let mut map = InputMap {
        select_replace: Vec::new(),
        select_toggle: Vec::new(),
        select_clear: Vec::new(),
        pan: Vec::new(),
        zoom_extents: Vec::new(),
    };
    map.sanitize();
    assert!(!map.bindings_for(InputAction::SelectReplace).is_empty());
    assert!(!map.bindings_for(InputAction::SelectClear).is_empty());
}

#[test]
fn sanitize_adds_drag_companion_for_saved_select_click() {
    let mut map = InputMap {
        select_replace: vec![Binding::click(MouseButtonKind::Left)],
        select_toggle: vec![Binding::click(MouseButtonKind::Left).with_ctrl()],
        select_clear: vec![Binding::key("escape")],
        pan: vec![Binding::drag(MouseButtonKind::Middle)],
        zoom_extents: vec![Binding::double_click(MouseButtonKind::Left)],
    };
    map.sanitize();
    let none = mods(false, false, false, false);
    let ctrl = mods(true, false, false, true);
    assert!(map.dragged(InputAction::SelectReplace, PRIMARY, none, false));
    assert!(map.dragged(InputAction::SelectToggle, PRIMARY, ctrl, false));
    assert!(map.selects_with_pointer(InputAction::SelectReplace, PRIMARY, none, false));
}

#[test]
fn sanitize_does_not_override_existing_pan_drag() {
    let mut map = InputMap {
        select_replace: vec![Binding::click(MouseButtonKind::Left)],
        select_toggle: Vec::new(),
        select_clear: vec![Binding::key("escape")],
        pan: vec![Binding::drag(MouseButtonKind::Left)],
        zoom_extents: vec![Binding::double_click(MouseButtonKind::Left)],
    };
    map.sanitize();
    let none = mods(false, false, false, false);
    assert!(map.dragged(InputAction::Pan, PRIMARY, none, false));
    assert!(!map.dragged(InputAction::SelectReplace, PRIMARY, none, false));
}

#[test]
fn reset_action_restores_the_standard_bindings() {
    let mut map = InputMap::standard();
    map.bindings_for_mut(InputAction::Pan).clear();
    assert!(map.bindings_for(InputAction::Pan).is_empty());
    map.reset_action(InputAction::Pan);
    assert_eq!(
        map.bindings_for(InputAction::Pan),
        InputMap::standard().bindings_for(InputAction::Pan)
    );
}

#[test]
fn action_labels_and_drag_preference() {
    assert_eq!(InputAction::Pan.label(), "Pan");
    assert!(InputAction::Pan.prefers_drag());
    assert!(!InputAction::SelectReplace.prefers_drag());
    assert_eq!(MouseButtonKind::Left.label(), "Left");
}

#[test]
fn key_binding_validity_and_display() {
    assert!(Binding::key("escape").is_valid());
    assert!(!Binding::key("not-a-key").is_valid());
    assert_eq!(mycad::input::display_key_name("escape"), "Esc");
    assert_eq!(mycad::input::display_key_name(" PageUp "), "Page Up");
    assert_eq!(mycad::input::display_key_name("delete"), "Delete");
    assert_eq!(mycad::input::join_mods(&["Ctrl", "Shift"]), "Ctrl+Shift");
}
