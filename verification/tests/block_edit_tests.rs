use mycad::block_edit::{BlockEditSession, BlockUi, CreateBlockDialog, EnterRequest, LeaveIntent};
use mycad::history::{Edit, History};
use mycad::selection::EntityId;

/// A translation standing in for a block's placement.
type Placement = (f64, f64);

/// A block's contents: the names of the blocks it inserts, then its own
/// objects by id.
#[derive(Debug, Clone, PartialEq)]
struct Definition {
    inserts: Vec<String>,
    objects: Vec<u64>,
}

/// A block reference in the drawing.
struct Reference {
    id: EntityId,
    block: &'static str,
    at: Placement,
    parent: Option<&'static str>,
}

/// What the window code reads off the drawing before entering a reference.
fn request(
    session: &BlockEditSession<Placement, Definition>,
    reference: &Reference,
    definition: &Definition,
) -> EnterRequest<Placement, Definition> {
    let parent_world = session.space_transform(reference.parent).unwrap_or((0.0, 0.0));
    EnterRequest {
        instance_id: reference.id,
        block_name: Some(reference.block.to_string()),
        editable: !reference.block.starts_with('*'),
        dynamic: false,
        definition: Some((reference.block.to_string(), definition.clone())),
        parent_space: reference.parent.map(str::to_string),
        world_from_local: Some((parent_world.0 + reference.at.0, parent_world.1 + reference.at.1)),
    }
}

fn machine_and_motor() -> (Reference, Definition, Reference, Definition) {
    let machine = Reference { id: EntityId(20), block: "Machine", at: (0.0, 0.0), parent: None };
    let motor = Reference {
        id: EntityId(21),
        block: "Motor",
        at: (10.0, 0.0),
        parent: Some("Machine"),
    };
    let machine_def = Definition { inserts: vec!["Motor".to_string()], objects: vec![2] };
    let motor_def = Definition { inserts: Vec::new(), objects: vec![1] };
    (machine, machine_def, motor, motor_def)
}

#[test]
fn nested_stack_tracks_world_from_local() {
    let (machine, machine_def, motor, motor_def) = machine_and_motor();
    let mut session: BlockEditSession<Placement, Definition> = BlockEditSession::default();
    let history: History<String, u64, Definition> = History::default();
    let req = request(&session, &machine, &machine_def);
    session.enter(req, history.undo_len()).unwrap();
    assert_eq!(session.breadcrumb(), ["Model", "Machine"]);
    let req = request(&session, &motor, &motor_def);
    session.enter(req, history.undo_len()).unwrap();
    assert_eq!(session.breadcrumb(), ["Model", "Machine", "Motor"]);
    let placement = session.world_from_local().unwrap();
    let world = (placement.0 + 1.0, placement.1 + 0.0);
    assert!((world.0 - 11.0).abs() < 1e-9);
    assert!(world.1.abs() < 1e-9);
}

#[test]
fn entering_checks_the_reference_in_order() {
    let (machine, machine_def, _, _) = machine_and_motor();
    let mut session: BlockEditSession<Placement, Definition> = BlockEditSession::default();
    let mut req = request(&session, &machine, &machine_def);
    req.block_name = None;
    assert_eq!(session.enter(req, 0), Err("Select a block reference".to_string()));
    let mut req = request(&session, &machine, &machine_def);
    req.editable = false;
    assert_eq!(session.enter(req, 0), Err("Cannot edit a system block".to_string()));
    let mut req = request(&session, &machine, &machine_def);
    req.definition = None;
    assert_eq!(session.enter(req, 0), Err("Block 'Machine' was not found".to_string()));
    let mut req = request(&session, &machine, &machine_def);
    req.world_from_local = None;
    assert_eq!(session.enter(req, 0), Err("Block transform is not available".to_string()));
    assert!(!session.is_active());

    session.enter(request(&session, &machine, &machine_def), 3).unwrap();
    assert_eq!(session.undo_mark(), 3);
    let again = Reference { id: EntityId(30), block: "MACHINE", at: (1.0, 1.0), parent: Some("Machine") };
    assert_eq!(
        session.enter(request(&session, &again, &machine_def), 3),
        Err("Cannot enter a circular block reference".to_string())
    );
    let mut req = request(&session, &again, &machine_def);
    req.dynamic = true;
    assert_eq!(
        session.enter(req, 3),
        Err("Editing a nested dynamic reference independently is not supported yet".to_string())
    );
    assert_eq!(session.depth(), 1);
    assert_eq!(session.active_space(), Some("Machine".to_string()));
    session.pop();
    assert_eq!(session.active_space(), None);
    assert_eq!(session.undo_mark(), 0);
}

/// The blocks' contents, as the drawing holds them.
struct Drawing {
    blocks: Vec<(String, Definition)>,
}

impl Drawing {
    fn block(&self, name: &str) -> &Definition {
        &self.blocks.iter().find(|(n, _)| n == name).unwrap().1
    }

    fn block_mut(&mut self, name: &str) -> &mut Definition {
        &mut self.blocks.iter_mut().find(|(n, _)| n == name).unwrap().1
    }

    fn apply(&mut self, edit: &Edit<String, u64, Definition>) {
        match edit {
            Edit::InsertEntity { space, index, entity } => {
                self.block_mut(space).objects.insert(*index, *entity)
            }
            Edit::RemoveEntity { space, entity, .. } => {
                self.block_mut(space).objects.retain(|o| o != entity)
            }
            _ => {}
        }
    }
}

fn refresh_dirty(session: &mut BlockEditSession<Placement, Definition>, drawing: &Drawing) {
    let flags: Vec<bool> = (0..session.depth())
        .map(|i| {
            let frame = session.frame(i);
            drawing.block(&frame.block_name) != &frame.baseline
        })
        .collect();
    session.set_dirty_flags(&flags);
}

#[test]
fn save_packages_session_and_discard_restores_definition() {
    let motor_def = Definition { inserts: Vec::new(), objects: vec![1] };
    let mut drawing = Drawing { blocks: vec![("Motor".to_string(), motor_def.clone())] };
    let reference = Reference { id: EntityId(10), block: "Motor", at: (0.0, 0.0), parent: None };
    let mut history: History<String, u64, Definition> = History::default();
    let mut session: BlockEditSession<Placement, Definition> = BlockEditSession::default();
    let req = request(&session, &reference, &motor_def);
    session.enter(req, history.undo_len()).unwrap();

    history.begin();
    let edit = Edit::InsertEntity { space: "Motor".to_string(), index: 1, entity: 2 };
    drawing.apply(&edit);
    history.record(edit);
    history.commit_open();
    refresh_dirty(&mut session, &drawing);
    assert!(session.current_is_dirty());

    for transaction in session.discard_current(&mut history) {
        for edit in &transaction.edits {
            drawing.apply(edit);
        }
    }
    refresh_dirty(&mut session, &drawing);
    assert!(!session.current_is_dirty());
    assert_eq!(drawing.block("Motor").objects.len(), 1);

    history.begin();
    let edit = Edit::InsertEntity { space: "Motor".to_string(), index: 1, entity: 3 };
    drawing.apply(&edit);
    history.record(edit);
    history.commit_open();
    refresh_dirty(&mut session, &drawing);
    let saved = Ok(drawing.block("Motor").clone());
    session.save_current(&mut history, saved).unwrap();
    assert!(!session.current_is_dirty());
    assert!(history.is_dirty());
    assert_eq!(drawing.block("Motor").objects.len(), 2);
    session.pop();
    let undo = history.undo().expect("the saved session is one step");
    for edit in &undo.edits {
        drawing.apply(edit);
    }
    assert_eq!(drawing.block("Motor").objects.len(), 1);
}

#[test]
fn saving_outside_a_block_or_with_an_error_changes_nothing() {
    let mut history: History<String, u64, Definition> = History::default();
    let mut session: BlockEditSession<Placement, Definition> = BlockEditSession::default();
    let saved = Ok(Definition { inserts: Vec::new(), objects: Vec::new() });
    assert_eq!(session.save_current(&mut history, saved), Err("Not editing a block".to_string()));
    let reference = Reference { id: EntityId(10), block: "Motor", at: (0.0, 0.0), parent: None };
    let motor_def = Definition { inserts: Vec::new(), objects: vec![1] };
    session.enter(request(&session, &reference, &motor_def), 0).unwrap();
    history.record(Edit::InsertEntity { space: "Motor".to_string(), index: 1, entity: 2 });
    let refused = session.save_current(&mut history, Err("Stretch target is missing".to_string()));
    assert_eq!(refused, Err("Stretch target is missing".to_string()));
    assert_eq!(history.undo_len(), 1);
    assert_eq!(session.frame(0).baseline, motor_def);
    assert!(session.discard_current(&mut history).len() == 1);
    assert_eq!(history.undo_len(), 0);
}

#[test]
fn rename_updates_session_path_and_baseline_inserts() {
    let (machine, machine_def, motor, motor_def) = machine_and_motor();
    let mut session: BlockEditSession<Placement, Definition> = BlockEditSession::default();
    let history: History<String, u64, Definition> = History::default();
    session.enter(request(&session, &machine, &machine_def), history.undo_len()).unwrap();
    session.enter(request(&session, &motor, &motor_def), history.undo_len()).unwrap();
    session.on_block_renamed("Motor", "Motor Drive");
    // the caller rewrites the references inside each baseline
    for i in 0..session.depth() {
        let mut baseline = session.frame(i).baseline.clone();
        for name in baseline.inserts.iter_mut() {
            if name.eq_ignore_ascii_case("Motor") {
                *name = "Motor Drive".to_string();
            }
        }
        session.replace_baseline(i, baseline);
    }
    assert_eq!(session.breadcrumb(), ["Model", "Machine", "Motor Drive"]);
    let parent = session.frame(0);
    assert!(parent.baseline.inserts.iter().any(|name| name == "Motor Drive"));
    assert_eq!(session.frame(1).parent_space, Some("Machine".to_string()));
}

#[test]
fn leaving_a_dirty_block_asks_first() {
    let reference = Reference { id: EntityId(10), block: "Motor", at: (0.0, 0.0), parent: None };
    let motor_def = Definition { inserts: Vec::new(), objects: vec![1] };
    let mut session: BlockEditSession<Placement, Definition> = BlockEditSession::default();
    assert!(session.request_leave(LeaveIntent::Quit));
    session.enter(request(&session, &reference, &motor_def), 0).unwrap();
    assert!(session.request_leave(LeaveIntent::CloseOne));
    assert!(matches!(session.ui(), BlockUi::Nothing));
    session.set_dirty_flags(&[true]);
    assert!(!session.request_leave(LeaveIntent::OpenDrawing));
    match session.ui() {
        BlockUi::LeaveDirty { name, intent } => {
            assert_eq!(name, "Motor");
            assert_eq!(*intent, LeaveIntent::OpenDrawing);
        }
        other => panic!("{other:?}"),
    }
    session.on_block_renamed("motor", "Pump");
    match session.ui() {
        BlockUi::LeaveDirty { name, .. } => assert_eq!(name, "Pump"),
        other => panic!("{other:?}"),
    }
    let previous = session.replace_ui(BlockUi::SaveDrawing);
    assert!(matches!(previous, BlockUi::LeaveDirty { .. }));
    session.clear();
    assert!(!session.is_active());
    assert!(matches!(session.ui(), BlockUi::Nothing));
}

#[test]
fn create_dialog_skips_the_opening_frame() {
    let mut dialog = CreateBlockDialog {
        name: String::new(),
        base_x: "0".into(),
        base_y: "0".into(),
        replace: true,
        ids: Vec::new(),
        space: None,
        error: None,
        just_opened: true,
    };
    assert!(dialog.skip_open_frame());
    assert!(!dialog.just_opened);
    assert!(!dialog.skip_open_frame());
}
