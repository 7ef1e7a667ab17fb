use mycad::blocks::{expand_paths_to, node_matches, BlockTree, BlocksPanel, KeySet, MODEL_KEY};

/// Model space inserts Machine; Machine inserts Motor twice; Motor inserts
/// Machine again.
fn cyclic_tree() -> BlockTree {
    let mut tree = BlockTree::new();
    assert!(tree.add_child(MODEL_KEY, "Machine", 1));
    assert!(tree.add_child("Machine", "Motor", 2));
    assert!(tree.add_child("Motor", "Machine", 1));
    tree
}

/// Model space inserts Machine, which inserts Motor.
fn nested_tree() -> BlockTree {
    let mut tree = BlockTree::new();
    tree.add_child(MODEL_KEY, "Machine", 1);
    tree.add_child("Machine", "Motor", 1);
    tree
}

#[test]
fn tree_walk_stops_on_cycles_and_groups_counts() {
    let tree = cyclic_tree();
    let mut panel = BlocksPanel::default();
    panel.expand("Machine");
    panel.expand("Motor");
    let rows = panel.visible_rows(&tree);
    assert_eq!(rows[0].name, "Machine");
    assert!(!rows[0].cyclic);
    assert!(rows.iter().any(|row| row.name == "Motor" && !row.cyclic));
    assert!(rows.iter().any(|row| row.name == "Machine" && row.cyclic));
    assert_eq!(rows.len(), 3);
    assert_eq!(tree.children_of("Machine")[0].count, 2);
    assert_eq!(tree.children_of("MACHINE")[0].name, "Motor");
}

#[test]
fn search_keeps_ancestors_of_a_nested_match() {
    let tree = nested_tree();
    let mut path = Vec::new();
    assert!(node_matches(&tree, "Machine", "Machine", "motor", &mut path));
    assert!(path.is_empty());
    assert!(!node_matches(&tree, "Machine", "Machine", "zzz", &mut path));
    let mut panel = BlocksPanel::default();
    panel.set_search("  MOTOR ".to_string());
    assert!(panel.shows_model_row(&tree));
    let rows = panel.visible_rows(&tree);
    assert_eq!(rows.len(), 1);
    assert_eq!(rows[0].name, "Machine");
}

#[test]
fn active_edit_path_expands_ancestors() {
    let tree = nested_tree();
    let mut expanded = KeySet::new();
    let mut path = Vec::new();
    assert!(expand_paths_to(&tree, "Motor", MODEL_KEY, &mut path, &mut expanded));
    assert!(expanded.contains(""));
    assert!(expanded.contains("machine"));
    assert!(!expanded.contains("motor"));
}

#[test]
fn cycles_do_not_hang_the_search() {
    let tree = cyclic_tree();
    let mut path = Vec::new();
    assert!(!node_matches(&tree, "Model", MODEL_KEY, "gear", &mut path));
    let mut expanded = KeySet::new();
    assert!(!expand_paths_to(&tree, "Gear", MODEL_KEY, &mut path, &mut expanded));
    assert!(!expanded.contains(""));
}

#[test]
fn toggling_a_row_twice_restores_it() {
    let mut panel = BlocksPanel::default();
    assert!(panel.is_expanded(""));
    assert!(!panel.is_expanded("Motor"));
    panel.toggle("Motor");
    assert!(panel.is_expanded("MOTOR"));
    panel.toggle("motor");
    assert!(!panel.is_expanded("Motor"));
}

#[test]
fn inline_rename_follows_a_renamed_block() {
    let mut panel = BlocksPanel::default();
    assert!(!panel.is_renaming());
    panel.start_rename("Motor".to_string());
    assert_eq!(panel.selected.as_deref(), Some("Motor"));
    assert_eq!(panel.renaming().map(|r| r.draft.as_str()), Some("Motor"));
    panel.retarget_rename("MOTOR", "Drive");
    assert_eq!(panel.renaming().map(|r| r.name.as_str()), Some("Drive"));
    panel.finish_rename(Some("Name is taken".to_string()));
    assert!(panel.is_renaming());
    assert_eq!(panel.error.as_deref(), Some("Name is taken"));
    panel.finish_rename(None);
    assert!(!panel.is_renaming());
    assert!(panel.error.is_none());
    panel.start_rename("Gear".to_string());
    panel.cancel_rename();
    assert!(!panel.is_renaming());
}

#[test]
fn an_empty_block_name_is_refused() {
    let mut tree = BlockTree::new();
    assert!(!tree.add_child(MODEL_KEY, "", 1));
    assert!(tree.children_of(MODEL_KEY).is_empty());
}

#[test]
fn the_edit_stack_is_expanded() {
    let tree = nested_tree();
    let mut panel = BlocksPanel::default();
    panel.toggle(MODEL_KEY);
    assert!(!panel.is_expanded(MODEL_KEY));
    panel.expand_active_edit_path(&tree, &["Motor".to_string()]);
    assert!(panel.is_expanded(MODEL_KEY));
    assert!(panel.is_expanded("Machine"));
    assert!(panel.is_expanded("Motor"));
}
