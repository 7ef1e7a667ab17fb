//! Command identities shared by the ribbon, context menu and status bar.

use vstd::prelude::*;

verus! {

/// One shared modification command, not six boolean flags.
#[derive(Debug, Clone, Copy, PartialEq, Eq, Structural)]
pub enum ModifyKind {
    Move,
    Copy,
    Rotate,
    Mirror,
    Scale,
    Erase,
}

/// Phase of a modification command.
#[derive(Debug, Clone, Copy, PartialEq, Eq, Structural)]
pub enum ModifyPhase {
    Selecting,
    BasePoint,
    Destination,
    Angle,
    MirrorSecond,
    ScaleFactor,
}

/// Ribbon and menu identity of the active command.
#[derive(Debug, Clone, Copy, PartialEq, Eq, Structural)]
pub enum CommandKind {
    Idle,
    Line,
    Polyline,
    Circle,
    Arc,
    Rectangle,
    Distance,
    Angle,
    Radius,
    Area,
    Move,
    Copy,
    Rotate,
    Mirror,
    Scale,
    Erase,
}

/// The command kind that runs a modification.
pub open spec fn modify_command(kind: ModifyKind) -> CommandKind {
    match kind {
        ModifyKind::Move => CommandKind::Move,
        ModifyKind::Copy => CommandKind::Copy,
        ModifyKind::Rotate => CommandKind::Rotate,
        ModifyKind::Mirror => CommandKind::Mirror,
        ModifyKind::Scale => CommandKind::Scale,
        ModifyKind::Erase => CommandKind::Erase,
    }
}

/// The modification a command kind runs, if it is one.
pub open spec fn command_modify(kind: CommandKind) -> Option<ModifyKind> {
    match kind {
        CommandKind::Move => Some(ModifyKind::Move),
        CommandKind::Copy => Some(ModifyKind::Copy),
        CommandKind::Rotate => Some(ModifyKind::Rotate),
        CommandKind::Mirror => Some(ModifyKind::Mirror),
        CommandKind::Scale => Some(ModifyKind::Scale),
        CommandKind::Erase => Some(ModifyKind::Erase),
        _ => None,
    }
}

/// Whether a command kind is one of the measurement tools.
pub open spec fn is_measure_kind(kind: CommandKind) -> bool {
    kind == CommandKind::Distance || kind == CommandKind::Angle || kind == CommandKind::Radius
        || kind == CommandKind::Area
}

/// The status-bar label of a command kind.
pub open spec fn command_label(kind: CommandKind) -> Seq<char> {
    match kind {
        CommandKind::Idle => "Ready"@,
        CommandKind::Line => "LINE"@,
        CommandKind::Polyline => "PLINE"@,
        CommandKind::Circle => "CIRCLE"@,
        CommandKind::Arc => "ARC"@,
        CommandKind::Rectangle => "RECTANGLE"@,
        CommandKind::Distance => "DIST"@,
        CommandKind::Angle => "ANGLE"@,
        CommandKind::Radius => "RADIUS"@,
        CommandKind::Area => "AREA"@,
        CommandKind::Move => "MOVE"@,
        CommandKind::Copy => "COPY"@,
        CommandKind::Rotate => "ROTATE"@,
        CommandKind::Mirror => "MIRROR"@,
        CommandKind::Scale => "SCALE"@,
        CommandKind::Erase => "ERASE"@,
    }
}

impl ModifyKind {
    /// The command kind this modification runs as.
    pub fn command_kind(self) -> (kind: CommandKind)
        ensures
            kind == modify_command(self),
    {
        match self {
            ModifyKind::Move => CommandKind::Move,
            ModifyKind::Copy => CommandKind::Copy,
            ModifyKind::Rotate => CommandKind::Rotate,
            ModifyKind::Mirror => CommandKind::Mirror,
            ModifyKind::Scale => CommandKind::Scale,
            ModifyKind::Erase => CommandKind::Erase,
        }
    }

    /// Copy and Mirror leave the originals in place and add transformed copies.
    pub fn creates_copies(self) -> (copies: bool)
        ensures
            copies <==> (self == ModifyKind::Copy || self == ModifyKind::Mirror),
    {
        match self {
            ModifyKind::Copy | ModifyKind::Mirror => true,
            _ => false,
        }
    }
}

impl CommandKind {
    pub fn is_idle(self) -> (idle: bool)
        ensures
            idle <==> self == CommandKind::Idle,
    {
        match self {
            CommandKind::Idle => true,
            _ => false,
        }
    }

    pub fn is_active(self) -> (active: bool)
        ensures
            active <==> self != CommandKind::Idle,
    {
        !self.is_idle()
    }

    /// Upper-case command name shown in prompts and menus.
    pub fn label(self) -> (label: &'static str)
        ensures
            label@ == command_label(self),
    {
        match self {
            CommandKind::Idle => "Ready",
            CommandKind::Line => "LINE",
            CommandKind::Polyline => "PLINE",
            CommandKind::Circle => "CIRCLE",
            CommandKind::Arc => "ARC",
            CommandKind::Rectangle => "RECTANGLE",
            CommandKind::Distance => "DIST",
            CommandKind::Angle => "ANGLE",
            CommandKind::Radius => "RADIUS",
            CommandKind::Area => "AREA",
            CommandKind::Move => "MOVE",
            CommandKind::Copy => "COPY",
            CommandKind::Rotate => "ROTATE",
            CommandKind::Mirror => "MIRROR",
            CommandKind::Scale => "SCALE",
            CommandKind::Erase => "ERASE",
        }
    }

    pub fn is_measure(self) -> (measure: bool)
        ensures
            measure <==> is_measure_kind(self),
    {
        match self {
            CommandKind::Distance | CommandKind::Angle | CommandKind::Radius | CommandKind::Area => true,
            _ => false,
        }
    }

    pub fn is_modify(self) -> (modify: bool)
        ensures
            modify <==> command_modify(self) is Some,
    {
        match self {
            CommandKind::Move | CommandKind::Copy | CommandKind::Rotate | CommandKind::Mirror
            | CommandKind::Scale | CommandKind::Erase => true,
            _ => false,
        }
    }

    pub fn modify_kind(self) -> (kind: Option<ModifyKind>)
        ensures
            kind == command_modify(self),
    {
        match self {
            CommandKind::Move => Some(ModifyKind::Move),
            CommandKind::Copy => Some(ModifyKind::Copy),
            CommandKind::Rotate => Some(ModifyKind::Rotate),
            CommandKind::Mirror => Some(ModifyKind::Mirror),
            CommandKind::Scale => Some(ModifyKind::Scale),
            CommandKind::Erase => Some(ModifyKind::Erase),
            _ => None,
        }
    }
}

/// Every modification round-trips through its command kind, and only the
/// six modify commands carry a modification.
pub proof fn lemma_modify_kind_round_trip(kind: ModifyKind, command: CommandKind)
    ensures
        command_modify(modify_command(kind)) == Some(kind),
        command_modify(command) matches Some(m) ==> modify_command(m) == command,
{
}


/// Whether a text is a non-empty word of ASCII capitals.
pub open spec fn upper_word(text: Seq<char>) -> bool {
    text.len() > 0 && forall|i: int| 0 <= i < text.len() ==> 'A' <= #[trigger] text[i] <= 'Z'
}

/// Which kind a label belongs to, read from its length and first two
/// characters.
pub open spec fn kind_of_label(label: Seq<char>) -> CommandKind {
    let (n, a, b) = (label.len(), label[0], label[1]);
    if n == 5 && a == 'R' {
        CommandKind::Idle
    } else if n == 4 && a == 'L' {
        CommandKind::Line
    } else if n == 5 && a == 'P' {
        CommandKind::Polyline
    } else if n == 6 && a == 'C' {
        CommandKind::Circle
    } else if n == 3 {
        CommandKind::Arc
    } else if n == 9 {
        CommandKind::Rectangle
    } else if n == 4 && a == 'D' {
        CommandKind::Distance
    } else if n == 5 && a == 'A' {
        CommandKind::Angle
    } else if n == 6 && a == 'R' && b == 'A' {
        CommandKind::Radius
    } else if n == 4 && a == 'A' {
        CommandKind::Area
    } else if n == 4 && a == 'M' {
        CommandKind::Move
    } else if n == 4 && a == 'C' {
        CommandKind::Copy
    } else if n == 6 && a == 'R' {
        CommandKind::Rotate
    } else if n == 6 && a == 'M' {
        CommandKind::Mirror
    } else if n == 5 && a == 'S' {
        CommandKind::Scale
    } else {
        CommandKind::Erase
    }
}

/// The idle label is "Ready"; every command's label is a word of capital
/// letters; no two kinds share a label.
pub proof fn lemma_labels_are_capital_words(kind: CommandKind, other: CommandKind)
    ensures
        command_label(CommandKind::Idle) == "Ready"@,
        kind != CommandKind::Idle ==> upper_word(command_label(kind)),
        kind != other ==> command_label(kind) != command_label(other),
{
    reveal_strlit("Ready");
    reveal_strlit("LINE");
    reveal_strlit("PLINE");
    reveal_strlit("CIRCLE");
    reveal_strlit("ARC");
    reveal_strlit("RECTANGLE");
    reveal_strlit("DIST");
    reveal_strlit("ANGLE");
    reveal_strlit("RADIUS");
    reveal_strlit("AREA");
    reveal_strlit("MOVE");
    reveal_strlit("COPY");
    reveal_strlit("ROTATE");
    reveal_strlit("MIRROR");
    reveal_strlit("SCALE");
    reveal_strlit("ERASE");
    assert(kind_of_label(command_label(kind)) == kind);
    assert(kind_of_label(command_label(other)) == other);
}

} // verus!
