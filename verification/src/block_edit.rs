//! The in-place block edit session: the stack of nested blocks being
//! edited, what saving or discarding one does to the history, and the
//! dialogs the session has open.
//!
//! `T` is where a block's local coordinates sit in the world and `D` a
//! saved copy of a block definition; the session carries both and leaves
//! their arithmetic and comparison to the caller.

use vstd::prelude::*;
use crate::history::{
    collapse_state, commit_state, discard_plan, discard_state, edits_cloned, steps_since, History,
    Transaction,
};
use crate::selection::EntityId;
use crate::text::{eq_ignore_case, lower};

verus! {

/// One nested level of in-place block editing.
#[derive(Debug, Clone)]
pub struct BlockEditFrame<T, D> {
    pub block_name: String,
    /// The block reference that was entered.
    pub instance_id: EntityId,
    /// The space that reference sits in: `None` for model space, else the
    /// name of the block that holds it.
    pub parent_space: Option<String>,
    pub world_from_local: T,
    /// The definition as it was when entered or last saved.
    pub baseline: D,
    /// The definition differs from the baseline.
    pub dirty: bool,
    /// The undo depth when the frame was entered or last saved.
    pub undo_mark: usize,
}

/// The plain value of a frame.
pub struct FrameView<T, D> {
    pub block_name: Seq<char>,
    pub instance_id: EntityId,
    pub parent_space: Option<Seq<char>>,
    pub world_from_local: T,
    pub baseline: D,
    pub dirty: bool,
    pub undo_mark: nat,
}

pub open spec fn opt_str_view(s: Option<String>) -> Option<Seq<char>> {
    match s {
        Some(t) => Some(t@),
        None => None,
    }
}

impl<T, D> View for BlockEditFrame<T, D> {
    type V = FrameView<T, D>;

    open spec fn view(&self) -> FrameView<T, D> {
        FrameView {
            block_name: self.block_name@,
            instance_id: self.instance_id,
            parent_space: opt_str_view(self.parent_space),
            world_from_local: self.world_from_local,
            baseline: self.baseline,
            dirty: self.dirty,
            undo_mark: self.undo_mark as nat,
        }
    }
}

/// The Create Block dialog: the name and base point typed so far, whether
/// the picked objects are replaced by a reference, and which objects.
#[derive(Debug, Clone)]
pub struct CreateBlockDialog {
    pub name: String,
    pub base_x: String,
    pub base_y: String,
    pub replace: bool,
    pub ids: Vec<EntityId>,
    /// `None` for model space, else the block the objects are in.
    pub space: Option<String>,
    pub error: Option<String>,
    /// The dialog opened this frame.
    pub just_opened: bool,
}

impl CreateBlockDialog {
    /// The click that opened the dialog must not also count as a click in
    /// it: the first frame is skipped, once.
    pub fn skip_open_frame(&mut self) -> (skip: bool)
        ensures
            skip == old(self).just_opened,
            *final(self) == (CreateBlockDialog { just_opened: false, ..*old(self) }),
    {
        let skip = self.just_opened;
        self.just_opened = false;
        skip
    }
}

/// Why the session is asked to leave the current block.
#[derive(Debug, Clone, Copy, PartialEq, Eq, Structural)]
pub enum LeaveIntent {
    CloseOne,
    /// Close down to this stack depth.
    CloseTo(usize),
    OpenDrawing,
    Quit,
    EnterNested { instance_id: EntityId },
}

/// The block-edit dialog that is open, if any.
#[derive(Debug, Clone)]
pub enum BlockUi {
    Nothing,
    Create(CreateBlockDialog),
    /// The Create dialog waits for a base point picked in the drawing.
    PickBase(CreateBlockDialog),
    LeaveDirty { name: String, intent: LeaveIntent },
    AddConfirm { name: String, references: usize, ids: Vec<EntityId> },
    SaveDrawing,
}

/// The nested edit stack, innermost last, and the open dialog.
#[derive(Debug)]
pub struct BlockEditSession<T, D> {
    stack: Vec<BlockEditFrame<T, D>>,
    ui: BlockUi,
}

pub open spec fn frames_view<T, D>(frames: Seq<BlockEditFrame<T, D>>) -> Seq<FrameView<T, D>> {
    frames.map_values(|f: BlockEditFrame<T, D>| f@)
}

impl<T, D> View for BlockEditSession<T, D> {
    type V = Seq<FrameView<T, D>>;

    closed spec fn view(&self) -> Seq<FrameView<T, D>> {
        frames_view(self.stack@)
    }
}

/// No two frames edit blocks of the same name (ignoring ASCII case): a
/// block is never entered inside itself.
pub open spec fn distinct_names<T, D>(frames: Seq<FrameView<T, D>>) -> bool {
    forall|i: int, j: int|
        0 <= i < frames.len() && 0 <= j < frames.len() && i != j ==> lower(
            #[trigger] frames[i].block_name,
        ) != lower(#[trigger] frames[j].block_name)
}

/// Some frame edits a block named `name`, ignoring ASCII case.
pub open spec fn on_stack<T, D>(frames: Seq<FrameView<T, D>>, name: Seq<char>) -> bool {
    exists|i: int| 0 <= i < frames.len() && lower(#[trigger] frames[i].block_name) == lower(name)
}

/// The innermost frame.
pub open spec fn current_of<T, D>(frames: Seq<FrameView<T, D>>) -> Option<FrameView<T, D>> {
    if frames.len() == 0 {
        None
    } else {
        Some(frames.last())
    }
}

impl<T, D> Default for BlockEditSession<T, D> {
    /// No block is being edited and no dialog is open.
    fn default() -> (session: Self)
        ensures
            session@.len() == 0,
            session.dialog() is Nothing,
    {
        BlockEditSession::new()
    }
}

impl<T, D> BlockEditSession<T, D> {
    /// The open dialog.
    pub closed spec fn dialog(&self) -> BlockUi {
        self.ui
    }

    pub fn ui(&self) -> (ui: &BlockUi)
        ensures
            *ui == self.dialog(),
    {
        &self.ui
    }

    /// Opens `ui` in place of the current dialog, which is handed back.
    pub fn replace_ui(&mut self, ui: BlockUi) -> (previous: BlockUi)
        ensures
            previous == old(self).dialog(),
            final(self).dialog() == ui,
            final(self)@ == old(self)@,
    {
        let mut previous = ui;
        std::mem::swap(&mut previous, &mut self.ui);
        previous
    }

    pub fn new() -> (session: Self)
        ensures
            session@.len() == 0,
            session.dialog() is Nothing,
    {
        let session = BlockEditSession { stack: Vec::new(), ui: BlockUi::Nothing };
        assert(session@ =~= seq![]);
        session
    }

    pub fn is_active(&self) -> (active: bool)
        ensures
            active == (self@.len() > 0),
    {
        self.stack.len() > 0
    }

    /// How many blocks are open, one inside the other.
    pub fn depth(&self) -> (depth: usize)
        ensures
            depth == self@.len(),
    {
        self.stack.len()
    }

    /// The frame at depth `index` (0 is the outermost).
    pub fn frame(&self, index: usize) -> (frame: &BlockEditFrame<T, D>)
        requires
            index < self@.len(),
        ensures
            frame@ == self@[index as int],
    {
        &self.stack[index]
    }

    /// The innermost frame.
    pub fn current(&self) -> (frame: Option<&BlockEditFrame<T, D>>)
        ensures
            match frame {
                Some(f) => current_of(self@) == Some(f@),
                None => current_of(self@) is None,
            },
    {
        if self.stack.len() == 0 {
            None
        } else {
            Some(&self.stack[self.stack.len() - 1])
        }
    }
}


/// The space edits go to: the innermost block, else model space (`None`).
pub open spec fn active_space_of<T, D>(frames: Seq<FrameView<T, D>>) -> Option<Seq<char>> {
    match current_of(frames) {
        Some(f) => Some(f.block_name),
        None => None,
    }
}

/// "Model", then the edited blocks from the outermost in.
pub open spec fn breadcrumb_of<T, D>(frames: Seq<FrameView<T, D>>) -> Seq<Seq<char>> {
    seq!["Model"@] + frames.map_values(|f: FrameView<T, D>| f.block_name)
}

/// The innermost frame at or below depth `upto` that edits the block
/// `name` (ignoring ASCII case).
pub open spec fn last_match<T, D>(frames: Seq<FrameView<T, D>>, name: Seq<char>, upto: int) -> Option<int>
    decreases upto,
{
    if upto <= 0 {
        None
    } else if lower(frames[upto - 1].block_name) == lower(name) {
        Some(upto - 1)
    } else {
        last_match(frames, name, upto - 1)
    }
}

/// The placement of a space's coordinates as far as the session knows it:
/// that of the innermost frame editing the block, none for model space or
/// a block that is not open.
pub open spec fn space_transform_of<T, D>(frames: Seq<FrameView<T, D>>, space: Option<Seq<char>>) -> Option<T> {
    match space {
        None => None,
        Some(name) => match last_match(frames, name, frames.len() as int) {
            Some(i) => Some(frames[i].world_from_local),
            None => None,
        },
    }
}

/// `name`, or `to` where it is `from` ignoring ASCII case.
pub open spec fn renamed(name: Seq<char>, from: Seq<char>, to: Seq<char>) -> Seq<char> {
    if lower(name) == lower(from) {
        to
    } else {
        name
    }
}

/// A frame after the block `from` became `to`: its own name and the name of
/// the space it was entered from follow the rename.
pub open spec fn frame_renamed<T, D>(f: FrameView<T, D>, from: Seq<char>, to: Seq<char>) -> FrameView<T, D> {
    FrameView {
        block_name: renamed(f.block_name, from, to),
        parent_space: match f.parent_space {
            Some(p) => Some(renamed(p, from, to)),
            None => None,
        },
        ..f
    }
}

impl<T, D> BlockEditSession<T, D> {
    /// Where edits go: the innermost block, or model space (`None`).
    pub fn active_space(&self) -> (space: Option<String>)
        ensures
            opt_str_view(space) == active_space_of(self@),
    {
        match self.current() {
            Some(frame) => Some(frame.block_name.clone()),
            None => None,
        }
    }

    /// The undo depth to which the current block's edits reach back; 0 in
    /// model space.
    pub fn undo_mark(&self) -> (mark: usize)
        ensures
            mark == match current_of(self@) {
                Some(f) => f.undo_mark,
                None => 0,
            },
    {
        match self.current() {
            Some(frame) => frame.undo_mark,
            None => 0,
        }
    }

    pub fn current_is_dirty(&self) -> (dirty: bool)
        ensures
            dirty == (current_of(self@) matches Some(f) && f.dirty),
    {
        match self.current() {
            Some(frame) => frame.dirty,
            None => false,
        }
    }

    /// The path shown above the drawing.
    pub fn breadcrumb(&self) -> (names: Vec<String>)
        ensures
            names@.map_values(|n: String| n@) == breadcrumb_of(self@),
    {
        let mut names: Vec<String> = Vec::new();
        names.push("Model".to_string());
        let mut i: usize = 0;
        while i < self.stack.len()
            invariant
                i <= self@.len(),
                self@ == frames_view(self.stack@),
                names@.map_values(|n: String| n@) == breadcrumb_of(self@.take(i as int)),
            decreases self@.len() - i,
        {
            let ghost before = names@;
            let name = self.stack[i].block_name.clone();
            assert(name@ == self@[i as int].block_name);
            names.push(name);
            assert(names@ == before.push(name));
            assert(names@.map_values(|n: String| n@) =~= before.map_values(|n: String| n@).push(
                name@,
            ));
            assert(self@.take(i + 1).map_values(|f: FrameView<T, D>| f.block_name) =~= self@.take(
                i as int,
            ).map_values(|f: FrameView<T, D>| f.block_name).push(self@[i as int].block_name));
            assert(names@.map_values(|n: String| n@) =~= breadcrumb_of(self@.take(i + 1)));
            i = i + 1;
        }
        assert(self@.take(self@.len() as int) =~= self@);
        names
    }

    /// Closes the innermost block and any dialog.
    pub fn pop(&mut self)
        ensures
            final(self)@ == if old(self)@.len() == 0 {
                old(self)@
            } else {
                old(self)@.drop_last()
            },
            final(self).dialog() is Nothing,
    {
        let _ = self.stack.pop();
        self.ui = BlockUi::Nothing;
        assert(old(self)@.len() > 0 ==> self@ =~= old(self)@.drop_last());
    }

    /// Leaves every block and closes any dialog.
    pub fn clear(&mut self)
        ensures
            final(self)@.len() == 0,
            final(self).dialog() is Nothing,
    {
        self.stack.clear();
        self.ui = BlockUi::Nothing;
    }
}


/// What the drawing says about a block reference the user asks to enter.
pub struct EnterRequest<T, D> {
    pub instance_id: EntityId,
    /// The referenced block's name; `None` when the object is missing or is
    /// not a block reference.
    pub block_name: Option<String>,
    /// The block is one the user may edit (not a system block).
    pub editable: bool,
    /// The referenced definition is a dynamic block.
    pub dynamic: bool,
    /// The definition under its own spelling of the name, when it exists.
    pub definition: Option<(String, D)>,
    /// The space the reference sits in.
    pub parent_space: Option<String>,
    /// Where the block's coordinates sit in the world, when the reference's
    /// placement can be computed.
    pub world_from_local: Option<T>,
}

/// Entering a block: the frame pushed, or why it is refused, checked in
/// this order.
pub open spec fn enter_outcome<T, D>(
    frames: Seq<FrameView<T, D>>,
    req: EnterRequest<T, D>,
    undo_len: nat,
) -> Result<FrameView<T, D>, Seq<char>> {
    match req.block_name {
        None => Err("Select a block reference"@),
        Some(name) => if !req.editable {
            Err("Cannot edit a system block"@)
        } else if frames.len() > 0 && req.dynamic {
            Err("Editing a nested dynamic reference independently is not supported yet"@)
        } else if on_stack(frames, name@) {
            Err("Cannot enter a circular block reference"@)
        } else {
            match req.definition {
                None => Err("Block '"@ + name@ + "' was not found"@),
                Some((def_name, def)) => match req.world_from_local {
                    None => Err("Block transform is not available"@),
                    Some(world) => Ok(
                        FrameView {
                            block_name: def_name@,
                            instance_id: req.instance_id,
                            parent_space: opt_str_view(req.parent_space),
                            world_from_local: world,
                            baseline: def,
                            dirty: false,
                            undo_mark: undo_len,
                        },
                    ),
                },
            }
        },
    }
}

impl<T, D> BlockEditSession<T, D> {
    /// Whether a frame edits the block `name`, ignoring ASCII case.
    fn is_on_stack(&self, name: &str) -> (found: bool)
        ensures
            found == on_stack(self@, name@),
    {
        let mut i: usize = 0;
        while i < self.stack.len()
            invariant
                i <= self@.len(),
                self@ == frames_view(self.stack@),
                forall|k: int| 0 <= k < i ==> lower(#[trigger] self@[k].block_name) != lower(name@),
            decreases self@.len() - i,
        {
            if eq_ignore_case(self.stack[i].block_name.as_str(), name) {
                assert(lower(self@[i as int].block_name) == lower(name@));
                return true;
            }
            i = i + 1;
        }
        false
    }

    /// Enters a block reference, one level deeper; `undo_len` is the
    /// current undo depth, which the session's edits start from.
    pub fn enter(&mut self, request: EnterRequest<T, D>, undo_len: usize) -> (result: Result<(), String>)
        ensures
            match enter_outcome(old(self)@, request, undo_len as nat) {
                Ok(frame) => result is Ok && final(self)@ == old(self)@.push(frame)
                    && final(self).dialog() is Nothing,
                Err(message) => result matches Err(e) && e@ == message && final(self)@ == old(self)@
                    && final(self).dialog() == old(self).dialog(),
            },
            // a block is never entered inside itself
            distinct_names(old(self)@) && result is Ok && (request.definition matches Some(
                d,
            ) && request.block_name matches Some(n) && lower(d.0@) == lower(n@)) ==> distinct_names(
                final(self)@,
            ),
    {
        let EnterRequest {
            instance_id,
            block_name,
            editable,
            dynamic,
            definition,
            parent_space,
            world_from_local,
        } = request;
        let name = match block_name {
            None => return Err("Select a block reference".to_string()),
            Some(name) => name,
        };
        if !editable {
            return Err("Cannot edit a system block".to_string());
        }
        if self.stack.len() > 0 && dynamic {
            return Err(
                "Editing a nested dynamic reference independently is not supported yet".to_string(),
            );
        }
        if self.is_on_stack(name.as_str()) {
            return Err("Cannot enter a circular block reference".to_string());
        }
        let (def_name, baseline) = match definition {
            None => {
                let mut message = "Block '".to_string();
                message.append(name.as_str());
                message.append("' was not found");
                return Err(message);
            },
            Some(found) => found,
        };
        let world = match world_from_local {
            None => return Err("Block transform is not available".to_string()),
            Some(world) => world,
        };
        let frame = BlockEditFrame {
            block_name: def_name,
            instance_id,
            parent_space,
            world_from_local: world,
            baseline,
            dirty: false,
            undo_mark: undo_len,
        };
        let ghost before = self@;
        self.stack.push(frame);
        self.ui = BlockUi::Nothing;
        assert(self@ =~= before.push(frame@));
        Ok(())
    }

    /// Sets each frame's dirty flag, outermost first: whether its block now
    /// differs from the baseline.
    pub fn set_dirty_flags(&mut self, flags: &[bool])
        requires
            flags@.len() == old(self)@.len(),
        ensures
            final(self)@.len() == old(self)@.len(),
            forall|i: int|
                0 <= i < old(self)@.len() ==> #[trigger] final(self)@[i] == (FrameView {
                    dirty: flags@[i],
                    ..old(self)@[i]
                }),
            final(self).dialog() == old(self).dialog(),
    {
        let mut i: usize = 0;
        while i < self.stack.len()
            invariant
                i <= self.stack@.len(),
                self.stack@.len() == old(self)@.len(),
                old(self)@ == frames_view(old(self).stack@),
                flags@.len() == old(self)@.len(),
                self.ui == old(self).dialog(),
                forall|k: int|
                    0 <= k < i ==> (#[trigger] self.stack@[k])@ == (FrameView {
                        dirty: flags@[k],
                        ..old(self)@[k]
                    }),
                forall|k: int| i <= k < self.stack@.len() ==> #[trigger] self.stack@[k] == old(self).stack@[k],
            decreases self.stack@.len() - i,
        {
            let ghost before = self.stack@;
            self.stack[i].dirty = flags[i];
            assert(self.stack@[i as int]@ == (FrameView { dirty: flags@[i as int], ..old(self)@[i as int] }));
            assert(forall|k: int| 0 <= k < self.stack@.len() && k != i ==> self.stack@[k] == before[k]);
            i = i + 1;
        }
        assert forall|k: int| 0 <= k < old(self)@.len() implies #[trigger] self@[k] == (FrameView {
            dirty: flags@[k],
            ..old(self)@[k]
        }) by {
            assert(self@[k] == self.stack@[k]@);
        }
    }

    /// Puts a new baseline in the frame at depth `index`.
    pub fn replace_baseline(&mut self, index: usize, baseline: D)
        requires
            index < old(self)@.len(),
        ensures
            final(self)@ == old(self)@.update(
                index as int,
                FrameView { baseline, ..old(self)@[index as int] },
            ),
            final(self).dialog() == old(self).dialog(),
    {
        self.stack[index].baseline = baseline;
        assert(self@ =~= old(self)@.update(
            index as int,
            FrameView { baseline, ..old(self)@[index as int] },
        ));
    }
}

impl<T: Copy, D> BlockEditSession<T, D> {
    /// Where the innermost block's coordinates sit in the world; `None` in
    /// model space.
    pub fn world_from_local(&self) -> (placement: Option<T>)
        ensures
            placement == match current_of(self@) {
                Some(f) => Some(f.world_from_local),
                None => None,
            },
    {
        match self.current() {
            Some(frame) => Some(frame.world_from_local),
            None => None,
        }
    }

    /// The placement the session knows for a space (see
    /// `space_transform_of`).
    pub fn space_transform(&self, space: Option<&str>) -> (placement: Option<T>)
        ensures
            placement == space_transform_of(
                self@,
                match space {
                    Some(s) => Some(s@),
                    None => None,
                },
            ),
    {
        let name = match space {
            None => return None,
            Some(name) => name,
        };
        let mut i: usize = self.stack.len();
        while i > 0
            invariant
                i <= self@.len(),
                self@ == frames_view(self.stack@),
                space == Some(name),
                last_match(self@, name@, self@.len() as int) == last_match(self@, name@, i as int),
            decreases i,
        {
            if eq_ignore_case(self.stack[i - 1].block_name.as_str(), name) {
                assert(lower(self@[i - 1].block_name) == lower(name@));
                assert(last_match(self@, name@, i as int) == Some(i - 1));
                return Some(self.stack[i - 1].world_from_local);
            }
            i = i - 1;
        }
        None
    }
}


/// The dialog after the block `from` became `to`: a dialog that names the
/// block follows the rename; anything else is as it was.
pub open spec fn ui_renamed(before: BlockUi, after: BlockUi, from: Seq<char>, to: Seq<char>) -> bool {
    match (before, after) {
        (BlockUi::LeaveDirty { name: n0, intent: i0 }, BlockUi::LeaveDirty { name: n1, intent: i1 }) => {
            i1 == i0 && n1@ == renamed(n0@, from, to)
        },
        (
            BlockUi::AddConfirm { name: n0, references: r0, ids: d0 },
            BlockUi::AddConfirm { name: n1, references: r1, ids: d1 },
        ) => r1 == r0 && d1@ == d0@ && n1@ == renamed(n0@, from, to),
        (BlockUi::LeaveDirty { .. }, _) => false,
        (BlockUi::AddConfirm { .. }, _) => false,
        _ => after == before,
    }
}

fn rename_text(name: String, from: &str, to: &str) -> (result: String)
    ensures
        result@ == renamed(name@, from@, to@),
{
    if eq_ignore_case(name.as_str(), from) {
        to.to_string()
    } else {
        name
    }
}

impl<T, D> BlockEditSession<T, D> {
    /// Follows a block rename: the frames, the spaces they were entered
    /// from and the open dialog take the new name. (The baselines' own
    /// contents are the caller's to update, with `replace_baseline`.)
    pub fn on_block_renamed(&mut self, from: &str, to: &str)
        ensures
            final(self)@.len() == old(self)@.len(),
            forall|i: int|
                0 <= i < old(self)@.len() ==> #[trigger] final(self)@[i] == frame_renamed(
                    old(self)@[i],
                    from@,
                    to@,
                ),
            ui_renamed(old(self).dialog(), final(self).dialog(), from@, to@),
    {
        let mut i: usize = 0;
        while i < self.stack.len()
            invariant
                i <= self.stack@.len(),
                self.stack@.len() == old(self)@.len(),
                old(self)@ == frames_view(old(self).stack@),
                self.ui == old(self).dialog(),
                forall|k: int|
                    0 <= k < i ==> (#[trigger] self.stack@[k])@ == frame_renamed(
                        old(self)@[k],
                        from@,
                        to@,
                    ),
                forall|k: int| i <= k < self.stack@.len() ==> #[trigger] self.stack@[k] == old(self).stack@[k],
            decreases self.stack@.len() - i,
        {
            let ghost before = self.stack@;
            if eq_ignore_case(self.stack[i].block_name.as_str(), from) {
                self.stack[i].block_name = to.to_string();
            }
            let parent = match &self.stack[i].parent_space {
                Some(p) => if eq_ignore_case(p.as_str(), from) {
                    Some(to.to_string())
                } else {
                    None
                },
                None => None,
            };
            if parent.is_some() {
                self.stack[i].parent_space = parent;
            }
            assert(self.stack@[i as int]@ == frame_renamed(old(self)@[i as int], from@, to@));
            assert(forall|k: int| 0 <= k < self.stack@.len() && k != i ==> self.stack@[k] == before[k]);
            i = i + 1;
        }
        assert forall|k: int| 0 <= k < old(self)@.len() implies #[trigger] self@[k] == frame_renamed(
            old(self)@[k],
            from@,
            to@,
        ) by {
            assert(self@[k] == self.stack@[k]@);
        }
        let mut ui = BlockUi::Nothing;
        std::mem::swap(&mut ui, &mut self.ui);
        self.ui = match ui {
            BlockUi::LeaveDirty { name, intent } => BlockUi::LeaveDirty {
                name: rename_text(name, from, to),
                intent,
            },
            BlockUi::AddConfirm { name, references, ids } => BlockUi::AddConfirm {
                name: rename_text(name, from, to),
                references,
                ids,
            },
            other => other,
        };
    }

    /// Asks to leave the current block. With unsaved changes it does not
    /// leave yet: it asks to save or discard them, remembering why.
    pub fn request_leave(&mut self, intent: LeaveIntent) -> (leave: bool)
        ensures
            leave == !(current_of(old(self)@) matches Some(f) && f.dirty),
            final(self)@ == old(self)@,
            leave ==> final(self).dialog() == old(self).dialog(),
            !leave ==> (final(self).dialog() matches BlockUi::LeaveDirty { name, intent: i } && i
                == intent && name@ == current_of(old(self)@).unwrap().block_name),
    {
        if self.current_is_dirty() {
            let name = match self.current() {
                Some(frame) => frame.block_name.clone(),
                None => String::new(),
            };
            self.ui = BlockUi::LeaveDirty { name, intent };
            false
        } else {
            true
        }
    }

    /// Saves the current block: its edits since it was entered (or last
    /// saved) become one undo step, and the saved definition `after` (or
    /// why it cannot be saved) becomes the new baseline.
    pub fn save_current<S: Clone, E: Clone, X: Clone>(
        &mut self,
        history: &mut History<S, E, X>,
        after: Result<D, String>,
    ) -> (result: Result<(), String>)
        ensures
            old(self)@.len() == 0 ==> (result matches Err(e) && e@ == "Not editing a block"@)
                && final(self)@ == old(self)@ && final(history)@ == old(history)@,
            old(self)@.len() > 0 && after is Err ==> (result matches Err(e) && e@
                == after->Err_0@) && final(self)@ == old(self)@ && final(history)@ == old(history)@,
            old(self)@.len() > 0 && after is Ok ==> {
                let last = old(self)@.len() - 1;
                &&& result is Ok
                &&& final(history)@ == collapse_state(old(history)@, old(self)@[last].undo_mark as int)
                &&& final(self)@ == old(self)@.update(
                    last,
                    FrameView {
                        baseline: after->Ok_0,
                        dirty: false,
                        undo_mark: final(history)@.undo.len(),
                        ..old(self)@[last]
                    },
                )
            },
            final(self).dialog() == old(self).dialog(),
    {
        let len = self.stack.len();
        if len == 0 {
            return Err("Not editing a block".to_string());
        }
        let saved = match after {
            Err(message) => return Err(message),
            Ok(saved) => saved,
        };
        let mark = self.stack[len - 1].undo_mark;
        let _ = history.collapse_since(mark);
        let ghost before = self.stack@;
        self.stack[len - 1].baseline = saved;
        self.stack[len - 1].dirty = false;
        self.stack[len - 1].undo_mark = history.undo_len();
        assert(self@ =~= old(self)@.update(
            len - 1,
            FrameView {
                baseline: saved,
                dirty: false,
                undo_mark: history@.undo.len(),
                ..old(self)@[len - 1]
            },
        ));
        Ok(())
    }

    /// Discards the current block's edits since it was entered (or last
    /// saved); returns the transactions to apply to the drawing, as the
    /// history's `discard_since` gives them.
    pub fn discard_current<S: Clone, E: Clone, X: Clone>(
        &mut self,
        history: &mut History<S, E, X>,
    ) -> (apply: Vec<Transaction<S, E, X>>)
        ensures
            old(self)@.len() == 0 ==> apply@.len() == 0 && final(self)@ == old(self)@
                && final(history)@ == old(history)@,
            old(self)@.len() > 0 ==> {
                let last = old(self)@.len() - 1;
                let since = old(self)@[last].undo_mark as int;
                &&& final(history)@ == discard_state(old(history)@, since)
                &&& final(self)@ == old(self)@.update(last, FrameView { dirty: false, ..old(self)@[last] })
                &&& commit_state(old(history)@).undo.len() <= since ==> apply@.len() == 0
                &&& commit_state(old(history)@).undo.len() > since ==> {
                    let plan = discard_plan(steps_since(commit_state(old(history)@), since));
                    &&& apply@.len() == plan.len()
                    &&& forall|i: int|
                        0 <= i < plan.len() ==> edits_cloned(#[trigger] plan[i], apply@[i]@)
                }
            },
            final(self).dialog() == old(self).dialog(),
    {
        let len = self.stack.len();
        if len == 0 {
            return Vec::new();
        }
        let mark = self.stack[len - 1].undo_mark;
        let apply = history.discard_since(mark);
        self.stack[len - 1].dirty = false;
        assert(self@ =~= old(self)@.update(len - 1, FrameView { dirty: false, ..old(self)@[len - 1] }));
        apply
    }
}


/// Leaving the block just entered returns the stack to what it was.
pub proof fn lemma_pop_undoes_enter<T, D>(frames: Seq<FrameView<T, D>>, entered: FrameView<T, D>)
    ensures
        frames.push(entered).drop_last() == frames,
{
    assert(frames.push(entered).drop_last() =~= frames);
}

/// After a block `from` is renamed to a different name `to`, no open frame
/// is named `from` any more (ignoring ASCII case).
pub proof fn lemma_rename_leaves_no_old_name<T, D>(
    frames: Seq<FrameView<T, D>>,
    from: Seq<char>,
    to: Seq<char>,
)
    requires
        lower(from) != lower(to),
    ensures
        forall|i: int|
            0 <= i < frames.len() ==> lower(#[trigger] frame_renamed(frames[i], from, to).block_name)
                != lower(from),
{
}

/// Renaming a block to a name no open frame uses keeps the open blocks'
/// names distinct.
pub proof fn lemma_rename_keeps_names_distinct<T, D>(
    frames: Seq<FrameView<T, D>>,
    from: Seq<char>,
    to: Seq<char>,
)
    requires
        distinct_names(frames),
        !on_stack(frames, to),
    ensures
        distinct_names(frames.map_values(|f: FrameView<T, D>| frame_renamed(f, from, to))),
{
    let after = frames.map_values(|f: FrameView<T, D>| frame_renamed(f, from, to));
    assert forall|i: int, j: int|
        0 <= i < after.len() && 0 <= j < after.len() && i != j implies lower(
            #[trigger] after[i].block_name,
        ) != lower(#[trigger] after[j].block_name) by {
        assert(lower(frames[i].block_name) != lower(frames[j].block_name));
        assert(lower(frames[i].block_name) != lower(to));
        assert(lower(frames[j].block_name) != lower(to));
    }
}

/// Discarding a block right after saving it changes nothing: the save
/// leaves no transaction open and sets the mark to the undo depth, so the
/// discard has no step to take back and the undo steps stay as saved.
pub proof fn lemma_discard_after_save_changes_nothing<S, E, X>(
    history: crate::history::HistoryState<S, E, X>,
    mark: int,
)
    ensures
        ({
            let saved = collapse_state(history, mark);
            let discarded = discard_state(saved, saved.undo.len() as int);
            &&& commit_state(saved) == saved
            &&& discarded.undo == saved.undo
            &&& discarded.revision == saved.revision
            &&& discarded.clean_revision == saved.clean_revision
        }),
{
}

} // verus!
