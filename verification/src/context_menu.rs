//! Content of the compact viewport right-click menu.
//!
//! The menu is described here as a list of items; drawing them is left to
//! the window code.

use crate::command_state::{kind_of, AreaState, CommandState};
use crate::commands::{command_label, command_modify, is_measure_kind, CommandKind, ModifyKind};
use crate::text::{ascii_lower, ascii_upper, decimal, decimal_string, push_char, to_ascii_lower, to_ascii_upper};
use vstd::prelude::*;

verus! {

/// Identity of a dynamic-block parameter.
#[derive(Debug, Clone, Copy, PartialEq, Eq, Hash, Structural)]
pub struct ParameterId(pub u64);

/// One menu item the viewport can run without also accepting a point from
/// the same click.
#[derive(Debug, Clone, Copy, PartialEq, Eq, Structural)]
pub enum ContextAction {
    Finish,
    UndoLast,
    Close,
    Back,
    Cancel,
    Properties,
    SetCurrentLayerFromObject,
    Deselect,
    RepeatLast,
    ZoomExtents,
    Move,
    Copy,
    Rotate,
    Mirror,
    Scale,
    Erase,
    CreateBlock,
    EditBlock,
    AddToBlock,
    RemoveFromBlock,
    MakeUnique,
    CreateDynamicBlock,
    EditDynamicBlock,
    AttachMoveTo(ParameterId),
    AttachStretchTo(ParameterId),
    NewSize,
}

/// Which menu the viewport shows.
#[derive(Debug, Clone, Copy, PartialEq, Eq, Structural)]
pub enum ContextKind {
    Line,
    Polyline,
    TwoPointDraw,
    AreaPoints,
    Modify,
    Erase,
    Entity,
    Empty,
}

/// The menu of the active command, if it has one.
pub open spec fn command_menu(kind: CommandKind) -> Option<ContextKind> {
    match kind {
        CommandKind::Line => Some(ContextKind::Line),
        CommandKind::Polyline => Some(ContextKind::Polyline),
        CommandKind::Circle | CommandKind::Arc | CommandKind::Rectangle | CommandKind::Distance
        | CommandKind::Angle | CommandKind::Radius | CommandKind::Area => Some(ContextKind::TwoPointDraw),
        CommandKind::Move | CommandKind::Copy | CommandKind::Rotate | CommandKind::Mirror
        | CommandKind::Scale => Some(ContextKind::Modify),
        CommandKind::Erase => Some(ContextKind::Erase),
        CommandKind::Idle => None,
    }
}

pub fn kind_for_command(kind: CommandKind) -> (menu: Option<ContextKind>)
    ensures
        menu == command_menu(kind),
{
    match kind {
        CommandKind::Line => Some(ContextKind::Line),
        CommandKind::Polyline => Some(ContextKind::Polyline),
        CommandKind::Circle | CommandKind::Arc | CommandKind::Rectangle | CommandKind::Distance
        | CommandKind::Angle | CommandKind::Radius | CommandKind::Area => Some(ContextKind::TwoPointDraw),
        CommandKind::Move | CommandKind::Copy | CommandKind::Rotate | CommandKind::Mirror
        | CommandKind::Scale => Some(ContextKind::Modify),
        CommandKind::Erase => Some(ContextKind::Erase),
        CommandKind::Idle => None,
    }
}

/// The menu of a command state: an area boundary being picked has its own.
pub fn kind_for_state<P: Copy>(state: &CommandState<P>) -> (menu: Option<ContextKind>)
    ensures
        menu == if state@ is AreaPoints {
            Some(ContextKind::AreaPoints)
        } else {
            command_menu(kind_of(state@))
        },
{
    if matches!(state, CommandState::Area(AreaState::Points { .. })) {
        return Some(ContextKind::AreaPoints);
    }
    kind_for_command(state.kind())
}

/// A label lower-cased with its first character upper-cased (ASCII).
pub open spec fn title_cased(label: Seq<char>) -> Seq<char> {
    if label.len() == 0 {
        label
    } else {
        seq![ascii_upper(ascii_lower(label[0]))] + label.skip(1).map_values(|c: char| ascii_lower(c))
    }
}

pub fn title_case(label: &str) -> (title: String)
    ensures
        title@ == title_cased(label@),
{
    let chars = crate::text::chars_of(label);
    let mut title = String::new();
    let mut i: usize = 0;
    while i < chars.len()
        invariant
            chars@ == label@,
            i <= chars@.len(),
            i == 0 ==> title@.len() == 0,
            i > 0 ==> title@ == seq![ascii_upper(ascii_lower(label@[0]))] + label@.subrange(
                1,
                i as int,
            ).map_values(|c: char| ascii_lower(c)),
        decreases chars@.len() - i,
    {
        let lower = to_ascii_lower(chars[i]);
        let ghost before = title@;
        if i == 0 {
            push_char(&mut title, to_ascii_upper(lower));
            assert(label@.subrange(1, 1).map_values(|c: char| ascii_lower(c)) =~= seq![]);
        } else {
            push_char(&mut title, lower);
            assert(label@.subrange(1, i + 1).map_values(|c: char| ascii_lower(c)) =~= label@.subrange(
                1,
                i as int,
            ).map_values(|c: char| ascii_lower(c)).push(ascii_lower(label@[i as int])));
        }
        i = i + 1;
    }
    if chars.len() == 0 {
        assert(title@ =~= title_cased(label@));
    } else {
        assert(label@.subrange(1, label@.len() as int) =~= label@.skip(1));
    }
    title
}

/// Which block commands the idle menu offers.
#[derive(Debug, Clone, Default)]
pub struct BlockMenuState {
    pub can_create: bool,
    pub can_edit: bool,
    pub can_add: bool,
    pub can_remove: bool,
    pub can_make_unique: bool,
    pub can_create_dynamic: bool,
    pub can_edit_dynamic: bool,
    pub can_attach: bool,
    pub size_parameters: Vec<(ParameterId, String)>,
}

/// One entry of the menu.
#[derive(Debug, Clone, PartialEq, Eq)]
pub enum MenuItem {
    /// A grey line of text, not clickable.
    Caption(String),
    /// A clickable row with an optional shortcut hint.
    Row { label: String, shortcut: Option<String>, enabled: bool, action: ContextAction },
    /// A thin rule between groups of rows.
    Separator,
    /// The Modify submenu (Move, Copy, Rotate, Mirror, Scale, Erase).
    ModifySubmenu,
}

/// The plain value of a menu item.
pub enum ItemView {
    Caption(Seq<char>),
    Row { label: Seq<char>, shortcut: Option<Seq<char>>, enabled: bool, action: ContextAction },
    Separator,
    ModifySubmenu,
}

impl View for MenuItem {
    type V = ItemView;

    open spec fn view(&self) -> ItemView {
        match self {
            MenuItem::Caption(text) => ItemView::Caption(text@),
            MenuItem::Row { label, shortcut, enabled, action } => ItemView::Row {
                label: label@,
                shortcut: match shortcut {
                    Some(s) => Some(s@),
                    None => None,
                },
                enabled: *enabled,
                action: *action,
            },
            MenuItem::Separator => ItemView::Separator,
            MenuItem::ModifySubmenu => ItemView::ModifySubmenu,
        }
    }
}

pub open spec fn items_view(items: Seq<MenuItem>) -> Seq<ItemView> {
    items.map_values(|i: MenuItem| i@)
}

pub open spec fn row_view(label: Seq<char>, enabled: bool, action: ContextAction) -> ItemView {
    ItemView::Row { label, shortcut: None, enabled, action }
}

pub open spec fn esc_row_view(label: Seq<char>, enabled: bool, action: ContextAction) -> ItemView {
    ItemView::Row { label, shortcut: Some("Esc"@), enabled, action }
}

/// The rows of a command menu.
pub open spec fn command_menu_view(
    kind: ContextKind,
    can_finish: bool,
    can_undo: bool,
    can_close: bool,
    can_back: bool,
) -> Seq<ItemView> {
    match kind {
        ContextKind::Line => seq![
            row_view("Finish"@, can_finish, ContextAction::Finish),
            row_view("Undo first point"@, can_undo, ContextAction::UndoLast),
            ItemView::Separator,
            esc_row_view("Cancel"@, true, ContextAction::Cancel),
        ],
        ContextKind::Polyline => seq![
            row_view("Finish"@, can_finish, ContextAction::Finish),
            row_view("Undo last vertex"@, can_undo, ContextAction::UndoLast),
            ItemView::Row {
                label: "Close"@,
                shortcut: Some("C"@),
                enabled: can_close,
                action: ContextAction::Close,
            },
            ItemView::Separator,
            esc_row_view("Cancel"@, true, ContextAction::Cancel),
        ],
        ContextKind::AreaPoints => seq![
            row_view("Finish"@, can_finish, ContextAction::Finish),
            row_view("Undo last point"@, can_undo, ContextAction::UndoLast),
            esc_row_view("Cancel"@, true, ContextAction::Cancel),
        ],
        ContextKind::TwoPointDraw => seq![
            row_view("Back"@, can_back, ContextAction::Back),
            esc_row_view("Cancel"@, true, ContextAction::Cancel),
        ],
        ContextKind::Modify => seq![
            row_view(
                if can_finish {
                    "Confirm selection"@
                } else {
                    "Finish"@
                },
                can_finish,
                ContextAction::Finish,
            ),
            row_view("Undo last point"@, can_undo, ContextAction::UndoLast),
            esc_row_view("Cancel"@, true, ContextAction::Cancel),
        ],
        ContextKind::Erase => seq![
            esc_row_view("Finish"@, true, ContextAction::Finish),
            esc_row_view("Cancel"@, true, ContextAction::Cancel),
        ],
        ContextKind::Entity | ContextKind::Empty => seq![],
    }
}

fn row(label: &str, enabled: bool, action: ContextAction) -> (item: MenuItem)
    ensures
        item@ == row_view(label@, enabled, action),
{
    MenuItem::Row { label: label.to_string(), shortcut: None, enabled, action }
}

fn shortcut_row(label: &str, shortcut: &str, enabled: bool, action: ContextAction) -> (item: MenuItem)
    ensures
        item@ == (ItemView::Row { label: label@, shortcut: Some(shortcut@), enabled, action }),
{
    MenuItem::Row {
        label: label.to_string(),
        shortcut: Some(shortcut.to_string()),
        enabled,
        action,
    }
}

/// The rows of the menu of an active command; the idle menus (`Entity`,
/// `Empty`) come from `idle_menu_items`.
pub fn command_menu_items(
    kind: ContextKind,
    can_finish: bool,
    can_undo: bool,
    can_close: bool,
    can_back: bool,
) -> (items: Vec<MenuItem>)
    ensures
        items_view(items@) == command_menu_view(kind, can_finish, can_undo, can_close, can_back),
{
    let mut items: Vec<MenuItem> = Vec::new();
    match kind {
        ContextKind::Line => {
            items.push(row("Finish", can_finish, ContextAction::Finish));
            items.push(row("Undo first point", can_undo, ContextAction::UndoLast));
            items.push(MenuItem::Separator);
            items.push(shortcut_row("Cancel", "Esc", true, ContextAction::Cancel));
        },
        ContextKind::Polyline => {
            items.push(row("Finish", can_finish, ContextAction::Finish));
            items.push(row("Undo last vertex", can_undo, ContextAction::UndoLast));
            items.push(shortcut_row("Close", "C", can_close, ContextAction::Close));
            items.push(MenuItem::Separator);
            items.push(shortcut_row("Cancel", "Esc", true, ContextAction::Cancel));
        },
        ContextKind::AreaPoints => {
            items.push(row("Finish", can_finish, ContextAction::Finish));
            items.push(row("Undo last point", can_undo, ContextAction::UndoLast));
            items.push(shortcut_row("Cancel", "Esc", true, ContextAction::Cancel));
        },
        ContextKind::TwoPointDraw => {
            items.push(row("Back", can_back, ContextAction::Back));
            items.push(shortcut_row("Cancel", "Esc", true, ContextAction::Cancel));
        },
        ContextKind::Modify => {
            let label = if can_finish {
                "Confirm selection"
            } else {
                "Finish"
            };
            items.push(row(label, can_finish, ContextAction::Finish));
            items.push(row("Undo last point", can_undo, ContextAction::UndoLast));
            items.push(shortcut_row("Cancel", "Esc", true, ContextAction::Cancel));
        },
        ContextKind::Erase => {
            items.push(shortcut_row("Finish", "Esc", true, ContextAction::Finish));
            items.push(shortcut_row("Cancel", "Esc", true, ContextAction::Cancel));
        },
        ContextKind::Entity | ContextKind::Empty => {},
    }
    assert(items_view(items@) =~= command_menu_view(kind, can_finish, can_undo, can_close, can_back));
    items
}


/// The two attach rows of each size parameter, in order.
pub open spec fn attach_rows(params: Seq<(ParameterId, String)>) -> Seq<ItemView>
    decreases params.len(),
{
    if params.len() == 0 {
        seq![]
    } else {
        let (id, name) = params.last();
        attach_rows(params.drop_last()) + seq![
            row_view("Attach to "@ + name@ + " → Move"@, true, ContextAction::AttachMoveTo(id)),
            row_view("Attach to "@ + name@ + " → Stretch"@, true, ContextAction::AttachStretchTo(id)),
        ]
    }
}

/// `n object(s) selected`.
pub open spec fn selection_caption(n: nat) -> Seq<char> {
    decimal(n) + if n == 1 {
        " object selected"@
    } else {
        " objects selected"@
    }
}

/// The caption of the repeat row.
pub open spec fn repeat_caption(last: Option<CommandKind>) -> Seq<char> {
    match last {
        Some(kind) => "Repeat "@ + title_cased(command_label(kind)),
        None => "Repeat last command"@,
    }
}

pub open spec fn when(cond: bool, items: Seq<ItemView>) -> Seq<ItemView> {
    if cond {
        items
    } else {
        seq![]
    }
}

/// The rows about the entity under the cursor.
pub open spec fn entity_rows_view(entity: bool, can_set_layer: bool) -> Seq<ItemView> {
    when(
        entity,
        seq![
            row_view("Properties"@, true, ContextAction::Properties),
            row_view(
                "Set current layer from object"@,
                can_set_layer,
                ContextAction::SetCurrentLayerFromObject,
            ),
            row_view("Deselect"@, true, ContextAction::Deselect),
            ItemView::Separator,
        ],
    )
}

/// Whether any block command is offered.
pub open spec fn any_block_command(b: BlockMenuState) -> bool {
    b.can_create || b.can_edit || b.can_create_dynamic || b.can_edit_dynamic || b.can_attach
        || b.can_make_unique || b.can_add || b.can_remove
}

/// The block-creation and block-editing commands that are offered.
pub open spec fn block_head_view(b: BlockMenuState) -> Seq<ItemView> {
    when(b.can_create, seq![row_view("Create Block…"@, true, ContextAction::CreateBlock)])
        + when(b.can_edit, seq![row_view("Edit Block"@, true, ContextAction::EditBlock)])
        + when(
        b.can_create_dynamic,
        seq![row_view("Create a Dynamic Block…"@, true, ContextAction::CreateDynamicBlock)],
    ) + when(
        b.can_edit_dynamic,
        seq![row_view("Edit Dynamic Block…"@, true, ContextAction::EditDynamicBlock)],
    )
}

/// The attach rows, when attaching is offered.
pub open spec fn attach_section_view(b: BlockMenuState) -> Seq<ItemView> {
    when(
        b.can_attach,
        attach_rows(b.size_parameters@) + seq![
            row_view("Attach to Parameter → New Size…"@, true, ContextAction::NewSize),
        ],
    )
}

/// The membership commands that are offered, then a separator if any block
/// command was offered.
pub open spec fn block_tail_view(b: BlockMenuState) -> Seq<ItemView> {
    when(b.can_make_unique, seq![row_view("Make Unique…"@, true, ContextAction::MakeUnique)])
        + when(b.can_add, seq![row_view("Add Selected to Block"@, true, ContextAction::AddToBlock)])
        + when(
        b.can_remove,
        seq![row_view("Remove Selected from Block"@, true, ContextAction::RemoveFromBlock)],
    ) + when(any_block_command(b), seq![ItemView::Separator])
}

/// The block commands that are offered, then a separator if there was one.
pub open spec fn block_rows_view(b: BlockMenuState) -> Seq<ItemView> {
    block_head_view(b) + attach_section_view(b) + block_tail_view(b)
}

/// The rows every idle menu ends with.
pub open spec fn idle_tail_view(can_repeat: bool, last_command: Option<CommandKind>) -> Seq<
    ItemView,
> {
    seq![
        row_view(repeat_caption(last_command), can_repeat, ContextAction::RepeatLast),
        ItemView::ModifySubmenu,
        ItemView::Separator,
        row_view("Zoom Extents"@, true, ContextAction::ZoomExtents),
    ]
}

/// The menu shown over an entity (`entity`) or over empty space while no
/// command runs.
pub open spec fn idle_menu_view(
    entity: bool,
    can_set_layer: bool,
    can_repeat: bool,
    selection_count: nat,
    last_command: Option<CommandKind>,
    b: BlockMenuState,
) -> Seq<ItemView> {
    when(selection_count > 0, seq![ItemView::Caption(selection_caption(selection_count))])
        + entity_rows_view(entity, can_set_layer) + block_rows_view(b) + idle_tail_view(
        can_repeat,
        last_command,
    )
}

/// The caption of the repeat row.
pub fn repeat_label(last: Option<CommandKind>) -> (caption: String)
    ensures
        caption@ == repeat_caption(last),
{
    match last {
        Some(kind) => {
            let mut caption = "Repeat ".to_string();
            let title = title_case(kind.label());
            caption.append(title.as_str());
            caption
        },
        None => "Repeat last command".to_string(),
    }
}

/// `n object(s) selected`.
pub fn selection_label(n: usize) -> (caption: String)
    ensures
        caption@ == selection_caption(n as nat),
{
    let mut caption = decimal_string(n as u64);
    if n == 1 {
        caption.append(" object selected");
    } else {
        caption.append(" objects selected");
    }
    caption
}

fn push_when(items: &mut Vec<MenuItem>, cond: bool, item: MenuItem)
    ensures
        items_view(final(items)@) == items_view(old(items)@) + when(cond, seq![item@]),
{
    if cond {
        items.push(item);
    }
    assert(items_view(final(items)@) =~= items_view(old(items)@) + when(cond, seq![item@]));
}

fn push_entity_rows(items: &mut Vec<MenuItem>, entity: bool, can_set_layer: bool)
    ensures
        items_view(final(items)@) == items_view(old(items)@) + entity_rows_view(
            entity,
            can_set_layer,
        ),
{
    if entity {
        items.push(row("Properties", true, ContextAction::Properties));
        items.push(
            row("Set current layer from object", can_set_layer, ContextAction::SetCurrentLayerFromObject),
        );
        items.push(row("Deselect", true, ContextAction::Deselect));
        items.push(MenuItem::Separator);
    }
    assert(items_view(final(items)@) =~= items_view(old(items)@) + entity_rows_view(
        entity,
        can_set_layer,
    ));
}

fn push_attach_rows(items: &mut Vec<MenuItem>, params: &Vec<(ParameterId, String)>)
    ensures
        items_view(final(items)@) == items_view(old(items)@) + attach_rows(params@),
{
    let ghost start = items_view(items@);
    let mut i: usize = 0;
    while i < params.len()
        invariant
            i <= params@.len(),
            items_view(items@) == start + attach_rows(params@.take(i as int)),
        decreases params@.len() - i,
    {
        let (id, name) = &params[i];
        let mut move_label = "Attach to ".to_string();
        move_label.append(name.as_str());
        move_label.append(" → Move");
        let mut stretch_label = "Attach to ".to_string();
        stretch_label.append(name.as_str());
        stretch_label.append(" → Stretch");
        let ghost before = items_view(items@);
        items.push(row(move_label.as_str(), true, ContextAction::AttachMoveTo(*id)));
        items.push(row(stretch_label.as_str(), true, ContextAction::AttachStretchTo(*id)));
        assert(params@.take(i + 1).drop_last() =~= params@.take(i as int));
        assert(params@.take(i + 1).last() == params@[i as int]);
        assert(items_view(items@) =~= before + seq![
            row_view(move_label@, true, ContextAction::AttachMoveTo(*id)),
            row_view(stretch_label@, true, ContextAction::AttachStretchTo(*id)),
        ]);
        i = i + 1;
    }
    assert(params@.take(params@.len() as int) =~= params@);
}

fn push_block_head(items: &mut Vec<MenuItem>, b: &BlockMenuState)
    ensures
        items_view(final(items)@) == items_view(old(items)@) + block_head_view(*b),
{
    let ghost a0 = items_view(items@);
    push_when(items, b.can_create, row("Create Block…", true, ContextAction::CreateBlock));
    push_when(items, b.can_edit, row("Edit Block", true, ContextAction::EditBlock));
    push_when(
        items,
        b.can_create_dynamic,
        row("Create a Dynamic Block…", true, ContextAction::CreateDynamicBlock),
    );
    push_when(
        items,
        b.can_edit_dynamic,
        row("Edit Dynamic Block…", true, ContextAction::EditDynamicBlock),
    );
    assert(items_view(items@) =~= a0 + block_head_view(*b));
}

fn push_attach_section(items: &mut Vec<MenuItem>, b: &BlockMenuState)
    ensures
        items_view(final(items)@) == items_view(old(items)@) + attach_section_view(*b),
{
    let ghost a0 = items_view(items@);
    if b.can_attach {
        push_attach_rows(items, &b.size_parameters);
        let ghost mid = items_view(items@);
        let last = row("Attach to Parameter → New Size…", true, ContextAction::NewSize);
        let ghost last_view = last@;
        items.push(last);
        assert(items_view(items@) =~= mid.push(last_view));
        assert(items_view(items@) =~= a0 + (attach_rows(b.size_parameters@) + seq![last_view]));
    } else {
        assert(items_view(items@) =~= a0 + seq![]);
    }
}

fn push_block_tail(items: &mut Vec<MenuItem>, b: &BlockMenuState)
    ensures
        items_view(final(items)@) == items_view(old(items)@) + block_tail_view(*b),
{
    let ghost a0 = items_view(items@);
    push_when(items, b.can_make_unique, row("Make Unique…", true, ContextAction::MakeUnique));
    push_when(items, b.can_add, row("Add Selected to Block", true, ContextAction::AddToBlock));
    push_when(
        items,
        b.can_remove,
        row("Remove Selected from Block", true, ContextAction::RemoveFromBlock),
    );
    let any_block = b.can_create || b.can_edit || b.can_create_dynamic || b.can_edit_dynamic
        || b.can_attach || b.can_make_unique || b.can_add || b.can_remove;
    push_when(items, any_block, MenuItem::Separator);
    assert(items_view(items@) =~= a0 + block_tail_view(*b));
}

fn push_idle_tail(items: &mut Vec<MenuItem>, can_repeat: bool, last_command: Option<CommandKind>)
    ensures
        items_view(final(items)@) == items_view(old(items)@) + idle_tail_view(
            can_repeat,
            last_command,
        ),
{
    let ghost a0 = items_view(items@);
    let repeat = repeat_label(last_command);
    items.push(row(repeat.as_str(), can_repeat, ContextAction::RepeatLast));
    items.push(MenuItem::ModifySubmenu);
    items.push(MenuItem::Separator);
    items.push(row("Zoom Extents", true, ContextAction::ZoomExtents));
    assert(items_view(items@) =~= a0 + idle_tail_view(can_repeat, last_command));
}

/// The rows of the idle menu: over an entity (`entity`) or over empty space.
pub fn idle_menu_items(
    entity: bool,
    can_set_layer: bool,
    can_repeat: bool,
    selection_count: usize,
    last_command: Option<CommandKind>,
    block_menu: &BlockMenuState,
) -> (items: Vec<MenuItem>)
    ensures
        items_view(items@) == idle_menu_view(
            entity,
            can_set_layer,
            can_repeat,
            selection_count as nat,
            last_command,
            *block_menu,
        ),
{
    let mut items: Vec<MenuItem> = Vec::new();
    if selection_count > 0 {
        items.push(MenuItem::Caption(selection_label(selection_count)));
    }
    let ghost a0 = items_view(items@);
    assert(a0 =~= when(
        selection_count > 0,
        seq![ItemView::Caption(selection_caption(selection_count as nat))],
    ));
    push_entity_rows(&mut items, entity, can_set_layer);
    let ghost a1 = items_view(items@);
    push_block_head(&mut items, block_menu);
    push_attach_section(&mut items, block_menu);
    push_block_tail(&mut items, block_menu);
    let ghost a2 = items_view(items@);
    assert(a2 =~= a1 + block_rows_view(*block_menu));
    push_idle_tail(&mut items, can_repeat, last_command);
    items
}

/// What the menu does after a frame.
pub enum MenuResult {
    StayOpen,
    Dismissed,
    Action(ContextAction),
}

/// An open viewport menu: which one, and whether it opened this frame (the
/// click that opened it must not also dismiss it).
#[derive(Debug, Clone, Copy, PartialEq, Eq, Structural)]
pub struct MenuState {
    pub kind: ContextKind,
    pub just_opened: bool,
}

impl MenuState {
    pub fn new(kind: ContextKind) -> (menu: Self)
        ensures
            menu == (MenuState { kind, just_opened: true }),
    {
        MenuState { kind, just_opened: true }
    }

    /// The outcome of a frame: a chosen row wins; otherwise the menu stays
    /// open through the frame it opened in, and later closes on a click
    /// elsewhere.
    pub fn finish_frame(&mut self, chosen: Option<ContextAction>, clicked_elsewhere: bool) -> (result: MenuResult)
        ensures
            chosen matches Some(a) ==> result == MenuResult::Action(a) && *final(self) == *old(self),
            chosen is None && old(self).just_opened ==> result == MenuResult::StayOpen
                && final(self).just_opened == false && final(self).kind == old(self).kind,
            chosen is None && !old(self).just_opened ==> *final(self) == *old(self) && (result
                == if clicked_elsewhere {
                MenuResult::Dismissed
            } else {
                MenuResult::StayOpen
            }),
    {
        if let Some(action) = chosen {
            return MenuResult::Action(action);
        }
        if self.just_opened {
            self.just_opened = false;
            MenuResult::StayOpen
        } else if clicked_elsewhere {
            MenuResult::Dismissed
        } else {
            MenuResult::StayOpen
        }
    }
}


/// Every modification command gets the modify menu (Erase its own): a
/// command's menu is the modify menu exactly when it carries a
/// modification other than Erase; measurements get the two-point menu;
/// only idle has no command menu.
pub proof fn lemma_menus_follow_the_command(kind: CommandKind)
    ensures
        command_menu(kind) == Some(ContextKind::Modify) <==> (command_modify(kind) is Some
            && command_modify(kind) != Some(ModifyKind::Erase)),
        command_menu(kind) == Some(ContextKind::Erase) <==> command_modify(kind) == Some(
            ModifyKind::Erase,
        ),
        is_measure_kind(kind) ==> command_menu(kind) == Some(ContextKind::TwoPointDraw),
        command_menu(kind) is None <==> kind == CommandKind::Idle,
{
}

} // verus!
