use mycad::history::{Edit, History};

type TestEdit = Edit<&'static str, u64, String>;

fn insert(index: usize, entity: u64) -> TestEdit {
    Edit::InsertEntity { space: "model", index, entity }
}

#[test]
fn empty_command_does_not_create_undo_entry() {
    let mut history: History<&'static str, u64, String> = History::default();
    history.begin();
    history.commit_open();
    assert!(!history.can_undo());
    assert!(!history.is_dirty());
}

#[test]
fn undoing_to_loaded_revision_clears_dirty() {
    let mut history: History<&'static str, u64, String> = History::default();
    history.mark_clean();
    history.record(insert(0, 41));
    assert!(history.is_dirty());
    let undo = history.undo().expect("one step");
    assert_eq!(undo.edits.len(), 1);
    assert!(matches!(undo.edits[0], Edit::RemoveEntity { index: 0, entity: 41, .. }));
    assert!(!history.is_dirty());
    let redo = history.redo().expect("one step");
    assert!(matches!(redo.edits[0], Edit::InsertEntity { index: 0, entity: 41, .. }));
    assert!(history.is_dirty());
}

#[test]
fn popping_last_open_edit_undoes_one_segment() {
    let mut history: History<&'static str, u64, String> = History::default();
    history.begin();
    history.record(insert(0, 1));
    history.record(insert(1, 2));
    let popped = history.pop_last_open_edit().expect("open edit");
    assert!(matches!(popped.invert(), Edit::RemoveEntity { index: 1, entity: 2, .. }));
    history.commit_open();
    assert!(history.can_undo());
    let undo = history.undo().expect("the first segment");
    assert_eq!(undo.edits.len(), 1);
    assert!(matches!(undo.edits[0], Edit::RemoveEntity { index: 0, entity: 1, .. }));
}

#[test]
fn grouped_line_segments_undo_as_one_transaction() {
    let mut history: History<&'static str, u64, String> = History::default();
    history.begin();
    history.record(insert(0, 1));
    history.record(insert(1, 2));
    history.commit_open();
    assert_eq!(history.undo_len(), 1);
    let undo = history.undo().expect("one transaction");
    // the inverse removes the second segment first
    assert!(matches!(undo.edits[0], Edit::RemoveEntity { index: 1, entity: 2, .. }));
    assert!(matches!(undo.edits[1], Edit::RemoveEntity { index: 0, entity: 1, .. }));
    assert!(!history.can_undo());
    assert!(history.can_redo());
}

#[test]
fn new_step_clears_redo() {
    let mut history: History<&'static str, u64, String> = History::default();
    history.record(insert(0, 1));
    history.undo();
    assert!(history.can_redo());
    history.record(insert(0, 2));
    assert!(!history.can_redo());
}

#[test]
fn collapse_since_makes_session_edits_one_undo() {
    let mut history: History<&'static str, u64, String> = History::default();
    let mark = history.undo_len();
    history.record(insert(0, 1));
    history.record(insert(1, 2));
    assert_eq!(history.undo_len(), mark + 2);
    assert!(history.collapse_since(mark));
    assert_eq!(history.undo_len(), mark + 1);
    let undo = history.undo().expect("merged step");
    assert_eq!(undo.edits.len(), 2);
}

#[test]
fn discard_keeps_explicit_rename() {
    let mut history: History<&'static str, u64, String> = History::default();
    let mark = history.undo_len();
    history.record(Edit::InsertEntity { space: "Motor", index: 1, entity: 9 });
    history.record(Edit::RenameBlock { before: "Motor".to_string(), after: "Drive".to_string() });
    let plan = history.discard_since(mark);
    // the geometry edit is undone, the rename stays as an undoable step
    assert!(plan.iter().any(|t| t
        .edits
        .iter()
        .any(|e| matches!(e, Edit::RemoveEntity { entity: 9, .. }))));
    assert!(history.can_undo());
    let undo = history.undo().expect("rename");
    assert!(undo.is_rename_only());
    assert!(matches!(&undo.edits[0], Edit::RenameBlock { before, after } if before == "Drive" && after == "Motor"));
}

#[test]
fn invert_twice_gives_the_edit_back() {
    let edit: TestEdit = Edit::ReplaceEntity { space: "model", index: 3, before: 1, after: 2 };
    let twice = edit.invert().invert();
    assert!(matches!(twice, Edit::ReplaceEntity { index: 3, before: 1, after: 2, .. }));
}
