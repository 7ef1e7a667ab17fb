use mycad::command_state::CommandState;
use mycad::commands::CommandKind;
use mycad::context_menu::{
    command_menu_items, idle_menu_items, kind_for_command, kind_for_state, repeat_label, selection_label,
    title_case, BlockMenuState, ContextAction, ContextKind, MenuItem, MenuResult, MenuState, ParameterId,
};

#[test]
fn drawing_commands_map_to_expected_menus() {
    assert_eq!(kind_for_command(CommandKind::Line), Some(ContextKind::Line));
    assert_eq!(kind_for_command(CommandKind::Polyline), Some(ContextKind::Polyline));
    assert_eq!(kind_for_command(CommandKind::Circle), Some(ContextKind::TwoPointDraw));
    assert_eq!(kind_for_command(CommandKind::Idle), None);
    assert_eq!(kind_for_command(CommandKind::Distance), Some(ContextKind::TwoPointDraw));
    assert_eq!(kind_for_command(CommandKind::Move), Some(ContextKind::Modify));
    assert_eq!(kind_for_command(CommandKind::Erase), Some(ContextKind::Erase));
}

#[test]
fn modify_actions_match_ribbon_command_kinds() {
    let pairs = [
        (ContextAction::Move, CommandKind::Move),
        (ContextAction::Copy, CommandKind::Copy),
        (ContextAction::Rotate, CommandKind::Rotate),
        (ContextAction::Mirror, CommandKind::Mirror),
        (ContextAction::Scale, CommandKind::Scale),
        (ContextAction::Erase, CommandKind::Erase),
    ];
    for (action, kind) in pairs {
        assert_eq!(kind.modify_kind().unwrap().command_kind(), kind);
        let _ = action;
    }
}

#[test]
fn area_points_have_their_own_menu() {
    let mut state: CommandState<(i64, i64)> = CommandState::default();
    state.start_area();
    assert_eq!(kind_for_state(&state), Some(ContextKind::TwoPointDraw));
    state.begin_area_points((0, 0));
    assert_eq!(kind_for_state(&state), Some(ContextKind::AreaPoints));
}

#[test]
fn titles_and_captions() {
    assert_eq!(title_case("PLINE"), "Pline");
    assert_eq!(title_case(""), "");
    assert_eq!(repeat_label(Some(CommandKind::Polyline)), "Repeat Pline");
    assert_eq!(repeat_label(None), "Repeat last command");
    assert_eq!(selection_label(1), "1 object selected");
    assert_eq!(selection_label(12), "12 objects selected");
}

fn row_labels(items: &[MenuItem]) -> Vec<String> {
    items
        .iter()
        .filter_map(|item| match item {
            MenuItem::Row { label, .. } => Some(label.clone()),
            _ => None,
        })
        .collect()
}

#[test]
fn modify_menu_confirms_a_selection() {
    let items = command_menu_items(ContextKind::Modify, true, false, false, false);
    assert_eq!(row_labels(&items), vec!["Confirm selection", "Undo last point", "Cancel"]);
    let items = command_menu_items(ContextKind::Modify, false, false, false, false);
    assert_eq!(row_labels(&items)[0], "Finish");
    let items = command_menu_items(ContextKind::Polyline, true, true, false, false);
    assert_eq!(items.len(), 5);
    assert!(matches!(&items[2], MenuItem::Row { label, shortcut: Some(s), enabled: false, action: ContextAction::Close } if label == "Close" && s == "C"));
}

#[test]
fn idle_menu_lists_block_commands_then_repeat() {
    let blocks = BlockMenuState {
        can_edit: true,
        can_attach: true,
        size_parameters: vec![(ParameterId(7), "Width".to_string())],
        ..BlockMenuState::default()
    };
    let items = idle_menu_items(true, false, true, 2, Some(CommandKind::Line), &blocks);
    assert!(matches!(&items[0], MenuItem::Caption(text) if text == "2 objects selected"));
    assert_eq!(
        row_labels(&items),
        vec![
            "Properties",
            "Set current layer from object",
            "Deselect",
            "Edit Block",
            "Attach to Width → Move",
            "Attach to Width → Stretch",
            "Attach to Parameter → New Size…",
            "Repeat Line",
            "Zoom Extents",
        ]
    );
    let empty = idle_menu_items(false, false, false, 0, None, &BlockMenuState::default());
    assert_eq!(row_labels(&empty), vec!["Repeat last command", "Zoom Extents"]);
    assert!(matches!(empty[1], MenuItem::ModifySubmenu));
}

#[test]
fn menu_stays_open_through_its_first_frame() {
    let mut menu = MenuState::new(ContextKind::Empty);
    assert!(matches!(menu.finish_frame(None, true), MenuResult::StayOpen));
    assert!(matches!(menu.finish_frame(None, false), MenuResult::StayOpen));
    assert!(matches!(menu.finish_frame(None, true), MenuResult::Dismissed));
    assert!(matches!(
        menu.finish_frame(Some(ContextAction::ZoomExtents), true),
        MenuResult::Action(ContextAction::ZoomExtents)
    ));
}
