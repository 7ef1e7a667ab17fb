//! Interactive command lifecycle: which points a command has taken, what
//! the next point does, and how a command steps back.
//!
//! Points are of a type `P` that this module never looks into. Whether a
//! candidate point is usable (too close to the last one, closes a loop,
//! defines an arc) is a floating-point question; the caller answers it with
//! a `PointCheck`, and builds geometry and measurements from the points that
//! a completed step hands back.

use crate::commands::{modify_command, CommandKind, ModifyKind, ModifyPhase};
use crate::dynamic_input::DynamicLayout;
use crate::selection::EntityId;
use vstd::prelude::*;

verus! {

/// The first point of a line segment.
#[derive(Debug, Clone, PartialEq)]
pub struct LineState<P> {
    pub first: Option<P>,
}

/// The vertices of a polyline accepted so far.
#[derive(Debug, Clone, PartialEq)]
pub struct PolylineState<P> {
    pub vertices: Vec<P>,
}

/// The center of a circle.
#[derive(Debug, Clone, PartialEq)]
pub struct CircleState<P> {
    pub center: Option<P>,
}

/// The start point and the point on a three-point arc.
#[derive(Debug, Clone, PartialEq)]
pub struct ArcState<P> {
    pub start: Option<P>,
    pub mid: Option<P>,
}

/// The first corner of a rectangle.
#[derive(Debug, Clone, PartialEq)]
pub struct RectangleState<P> {
    pub first: Option<P>,
}

/// The first point of a distance measurement.
#[derive(Debug, Clone, PartialEq)]
pub struct DistanceState<P> {
    pub first: Option<P>,
}

/// An angle measurement: between two straight segments, or from a vertex
/// and two rays.
#[derive(Debug, Clone, PartialEq)]
pub enum AngleState<P> {
    Prompt,
    FirstSegment { start: P, end: P },
    ThreePoint { vertex: Option<P>, ray: Option<P> },
}

/// An area measurement by boundary points.
#[derive(Debug, Clone, PartialEq)]
pub enum AreaState<P> {
    Prompt,
    Points { vertices: Vec<P> },
}

/// A modification command: its phase, the objects it works on and its base
/// point.
#[derive(Debug, Clone, PartialEq)]
pub struct ModifyState<P> {
    pub kind: ModifyKind,
    pub phase: ModifyPhase,
    pub targets: Vec<EntityId>,
    pub base: Option<P>,
}

/// The active command, which takes viewport points before idle selection
/// sees them.
#[derive(Debug, Clone, PartialEq)]
pub enum CommandState<P> {
    Idle,
    Line(LineState<P>),
    Polyline(PolylineState<P>),
    Circle(CircleState<P>),
    Arc(ArcState<P>),
    Rectangle(RectangleState<P>),
    Distance(DistanceState<P>),
    Angle(AngleState<P>),
    Radius,
    Area(AreaState<P>),
    Modify(ModifyState<P>),
}

/// The plain value of a command state.
pub enum Cmd<P> {
    Idle,
    Line { first: Option<P> },
    Polyline { vertices: Seq<P> },
    Circle { center: Option<P> },
    Arc { start: Option<P>, mid: Option<P> },
    Rectangle { first: Option<P> },
    Distance { first: Option<P> },
    AnglePrompt,
    AngleSegment { start: P, end: P },
    AngleRays { vertex: Option<P>, ray: Option<P> },
    Radius,
    AreaPrompt,
    AreaPoints { vertices: Seq<P> },
    Modify { kind: ModifyKind, phase: ModifyPhase, targets: Seq<EntityId>, base: Option<P> },
}

impl<P> View for CommandState<P> {
    type V = Cmd<P>;

    open spec fn view(&self) -> Cmd<P> {
        match self {
            CommandState::Idle => Cmd::Idle,
            CommandState::Line(s) => Cmd::Line { first: s.first },
            CommandState::Polyline(s) => Cmd::Polyline { vertices: s.vertices@ },
            CommandState::Circle(s) => Cmd::Circle { center: s.center },
            CommandState::Arc(s) => Cmd::Arc { start: s.start, mid: s.mid },
            CommandState::Rectangle(s) => Cmd::Rectangle { first: s.first },
            CommandState::Distance(s) => Cmd::Distance { first: s.first },
            CommandState::Angle(AngleState::Prompt) => Cmd::AnglePrompt,
            CommandState::Angle(AngleState::FirstSegment { start, end }) => Cmd::AngleSegment {
                start: *start,
                end: *end,
            },
            CommandState::Angle(AngleState::ThreePoint { vertex, ray }) => Cmd::AngleRays {
                vertex: *vertex,
                ray: *ray,
            },
            CommandState::Radius => Cmd::Radius,
            CommandState::Area(AreaState::Prompt) => Cmd::AreaPrompt,
            CommandState::Area(AreaState::Points { vertices }) => Cmd::AreaPoints {
                vertices: vertices@,
            },
            CommandState::Modify(s) => Cmd::Modify {
                kind: s.kind,
                phase: s.phase,
                targets: s.targets@,
                base: s.base,
            },
        }
    }
}

/// The caller's verdict on a candidate point, measured against the points
/// the command already holds.
#[derive(Debug, Clone, Copy, PartialEq, Eq)]
pub enum PointCheck {
    /// The point is usable.
    Fits,
    /// The point lies on the first vertex of a polyline whose ends are apart.
    ClosesLoop,
    /// The point is within the geometry tolerance of the point it pairs with
    /// (or the shape it completes would be degenerate).
    Degenerate,
    /// The geometry kernel refused the point, for this reason.
    Refused(&'static str),
}

/// The plain value of a point verdict.
pub enum Check {
    Fits,
    ClosesLoop,
    Degenerate,
    Refused(Seq<char>),
}

impl View for PointCheck {
    type V = Check;

    open spec fn view(&self) -> Check {
        match self {
            PointCheck::Fits => Check::Fits,
            PointCheck::ClosesLoop => Check::ClosesLoop,
            PointCheck::Degenerate => Check::Degenerate,
            PointCheck::Refused(m) => Check::Refused(m@),
        }
    }
}

/// What accepting a point produced. A completed shape or measurement hands
/// back the points it is made of; the caller builds the geometry.
#[derive(Debug, Clone, PartialEq)]
pub enum PointOutcome<P> {
    /// The point was taken; the command waits for the next one.
    Taken,
    Rejected(&'static str),
    Segment { start: P, end: P },
    ClosedPolyline { vertices: Vec<P> },
    Circle { center: P, rim: P },
    Arc { start: P, mid: P, end: P },
    Rectangle { first: P, opposite: P },
    Distance { first: P, second: P },
    Angle { vertex: P, ray: P, end: P },
    /// A modification step: the transform runs from `base` to `point`.
    Transform { kind: ModifyKind, phase: ModifyPhase, base: P, point: P, copies: bool },
    /// The angle between the segment `first_start`-`first_end` and the
    /// segment `second_start`-`second_end`.
    SegmentAngle { first_start: P, first_end: P, second_start: P, second_end: P },
}

/// The plain value of a point outcome.
pub enum Outcome<P> {
    Taken,
    Rejected(Seq<char>),
    Segment { start: P, end: P },
    ClosedPolyline { vertices: Seq<P> },
    Circle { center: P, rim: P },
    Arc { start: P, mid: P, end: P },
    Rectangle { first: P, opposite: P },
    Distance { first: P, second: P },
    Angle { vertex: P, ray: P, end: P },
    Transform { kind: ModifyKind, phase: ModifyPhase, base: P, point: P, copies: bool },
    SegmentAngle { first_start: P, first_end: P, second_start: P, second_end: P },
}

impl<P> View for PointOutcome<P> {
    type V = Outcome<P>;

    open spec fn view(&self) -> Outcome<P> {
        match self {
            PointOutcome::Taken => Outcome::Taken,
            PointOutcome::Rejected(m) => Outcome::Rejected(m@),
            PointOutcome::Segment { start, end } => Outcome::Segment { start: *start, end: *end },
            PointOutcome::ClosedPolyline { vertices } => Outcome::ClosedPolyline {
                vertices: vertices@,
            },
            PointOutcome::Circle { center, rim } => Outcome::Circle { center: *center, rim: *rim },
            PointOutcome::Arc { start, mid, end } => Outcome::Arc {
                start: *start,
                mid: *mid,
                end: *end,
            },
            PointOutcome::Rectangle { first, opposite } => Outcome::Rectangle {
                first: *first,
                opposite: *opposite,
            },
            PointOutcome::Distance { first, second } => Outcome::Distance {
                first: *first,
                second: *second,
            },
            PointOutcome::Angle { vertex, ray, end } => Outcome::Angle {
                vertex: *vertex,
                ray: *ray,
                end: *end,
            },
            PointOutcome::Transform { kind, phase, base, point, copies } => Outcome::Transform {
                kind: *kind,
                phase: *phase,
                base: *base,
                point: *point,
                copies: *copies,
            },
            PointOutcome::SegmentAngle { first_start, first_end, second_start, second_end } =>
            Outcome::SegmentAngle {
                first_start: *first_start,
                first_end: *first_end,
                second_start: *second_start,
                second_end: *second_end,
            },
        }
    }
}

// ------------------------------------------------------------------
// The model
// ------------------------------------------------------------------

/// The command kind of a state.
pub open spec fn kind_of<P>(c: Cmd<P>) -> CommandKind {
    match c {
        Cmd::Idle => CommandKind::Idle,
        Cmd::Line { .. } => CommandKind::Line,
        Cmd::Polyline { .. } => CommandKind::Polyline,
        Cmd::Circle { .. } => CommandKind::Circle,
        Cmd::Arc { .. } => CommandKind::Arc,
        Cmd::Rectangle { .. } => CommandKind::Rectangle,
        Cmd::Distance { .. } => CommandKind::Distance,
        Cmd::AnglePrompt | Cmd::AngleSegment { .. } | Cmd::AngleRays { .. } => CommandKind::Angle,
        Cmd::Radius => CommandKind::Radius,
        Cmd::AreaPrompt | Cmd::AreaPoints { .. } => CommandKind::Area,
        Cmd::Modify { kind, .. } => modify_command(kind),
    }
}

/// A modification phase that works from a base point.
pub open spec fn needs_base(phase: ModifyPhase) -> bool {
    phase == ModifyPhase::Destination || phase == ModifyPhase::Angle || phase
        == ModifyPhase::MirrorSecond || phase == ModifyPhase::ScaleFactor
}

/// The states the commands reach: an arc has its start before its middle
/// point, a ray follows its vertex, a boundary has a point, and a
/// modification past its base-point phase has its base point.
pub open spec fn well_formed<P>(c: Cmd<P>) -> bool {
    match c {
        Cmd::Arc { start, mid } => mid is Some ==> start is Some,
        Cmd::AngleRays { vertex, ray } => ray is Some ==> vertex is Some,
        Cmd::AreaPoints { vertices } => vertices.len() > 0,
        Cmd::Modify { phase, base, .. } => needs_base(phase) ==> base is Some,
        _ => true,
    }
}

/// The boundary an area measurement is taken over: the points picked, once
/// there are three or more.
pub open spec fn area_boundary<P>(c: Cmd<P>) -> Option<Seq<P>> {
    match c {
        Cmd::AreaPoints { vertices } => if vertices.len() >= 3 {
            Some(vertices)
        } else {
            None
        },
        _ => None,
    }
}

/// The vertices an open polyline is committed with, once it has two or more.
pub open spec fn open_polyline<P>(c: Cmd<P>) -> Option<Seq<P>> {
    match c {
        Cmd::Polyline { vertices } => if vertices.len() >= 2 {
            Some(vertices)
        } else {
            None
        },
        _ => None,
    }
}

/// A modification past its base point holds the base point: the one
/// state in which taking a point has nothing to work from.
pub open spec fn base_ready<P>(c: Cmd<P>) -> bool {
    match c {
        Cmd::Modify { phase, base, .. } => needs_base(phase) ==> base is Some,
        _ => true,
    }
}

/// Whether the command is picking objects rather than points.
pub open spec fn selecting_objects<P>(c: Cmd<P>) -> bool {
    c matches Cmd::Modify { phase: ModifyPhase::Selecting, .. }
}

/// Whether running object snaps makes sense for the next point.
pub open spec fn snaps_points<P>(c: Cmd<P>) -> bool {
    match c {
        Cmd::AnglePrompt | Cmd::AngleSegment { .. } | Cmd::Radius | Cmd::AreaPrompt | Cmd::Idle => false,
        Cmd::Modify { phase, .. } => phase != ModifyPhase::Selecting,
        _ => true,
    }
}

/// The point a polyline or line started from.
pub open spec fn start_vertex_of<P>(c: Cmd<P>) -> Option<P> {
    match c {
        Cmd::Line { first } => first,
        Cmd::Polyline { vertices } => if vertices.len() > 0 {
            Some(vertices[0])
        } else {
            None
        },
        _ => None,
    }
}

/// The point the rubber band and the numeric fields measure from.
pub open spec fn base_point_of<P>(c: Cmd<P>) -> Option<P> {
    match c {
        Cmd::Line { first } => first,
        Cmd::Polyline { vertices } => if vertices.len() > 0 {
            Some(vertices.last())
        } else {
            None
        },
        Cmd::Circle { center } => center,
        Cmd::Arc { start, mid } => if mid is Some {
            mid
        } else {
            start
        },
        Cmd::Rectangle { first } => first,
        Cmd::Distance { first } => first,
        Cmd::AngleRays { vertex, ray } => if ray is Some {
            ray
        } else {
            vertex
        },
        Cmd::AreaPoints { vertices } => if vertices.len() > 0 {
            Some(vertices.last())
        } else {
            None
        },
        Cmd::Modify { base, .. } => base,
        _ => None,
    }
}

/// Which numeric fields the next point exposes.
pub open spec fn layout_of<P>(c: Cmd<P>) -> DynamicLayout {
    match c {
        Cmd::Line { first: Some(_) } => DynamicLayout::LengthAngle,
        Cmd::Polyline { vertices } => if vertices.len() > 0 {
            DynamicLayout::LengthAngle
        } else {
            DynamicLayout::Hidden
        },
        Cmd::Circle { center: Some(_) } => DynamicLayout::Radius,
        Cmd::Rectangle { first: Some(_) } => DynamicLayout::WidthHeight,
        Cmd::Modify { phase, .. } => match phase {
            ModifyPhase::Destination => DynamicLayout::LengthAngle,
            ModifyPhase::Angle => DynamicLayout::Angle,
            ModifyPhase::ScaleFactor => DynamicLayout::Factor,
            _ => DynamicLayout::Hidden,
        },
        _ => DynamicLayout::Hidden,
    }
}

/// Whether Enter (or Finish) completes the command now.
pub open spec fn finishable<P>(c: Cmd<P>) -> bool {
    match c {
        Cmd::Line { first } => first is Some,
        Cmd::Polyline { vertices } => vertices.len() >= 2,
        Cmd::AreaPoints { vertices } => vertices.len() >= 3,
        Cmd::Circle { .. } | Cmd::Arc { .. } | Cmd::Rectangle { .. } => true,
        Cmd::Modify { kind, phase, targets, .. } => phase == ModifyPhase::Selecting && (kind
            == ModifyKind::Erase || targets.len() > 0),
        _ => false,
    }
}

/// Whether the polyline can be closed, given whether its first and last
/// vertices are apart.
pub open spec fn closable<P>(c: Cmd<P>, ends_apart: bool) -> bool {
    c matches Cmd::Polyline { vertices } && vertices.len() >= 3 && ends_apart
}

/// Whether "undo last point" has something to undo.
pub open spec fn undoable<P>(c: Cmd<P>) -> bool {
    match c {
        Cmd::Line { first } => first is Some,
        Cmd::Polyline { vertices } => vertices.len() > 0,
        Cmd::AreaPoints { vertices } => vertices.len() > 0,
        Cmd::Modify { phase, .. } => phase != ModifyPhase::Selecting,
        _ => false,
    }
}

/// Whether "back" has a step to go back to.
pub open spec fn backable<P>(c: Cmd<P>) -> bool {
    match c {
        Cmd::Circle { center } => center is Some,
        Cmd::Arc { start, .. } => start is Some,
        Cmd::Rectangle { first } => first is Some,
        Cmd::Distance { first } => first is Some,
        Cmd::AngleSegment { .. } => true,
        Cmd::AngleRays { vertex, ray } => vertex is Some || ray is Some,
        Cmd::AreaPoints { .. } => true,
        Cmd::Modify { phase, .. } => phase != ModifyPhase::Selecting,
        _ => false,
    }
}

/// A modification one phase back: from the base point to selecting, from
/// any later phase to the base point.
pub open spec fn modify_back<P>(c: Cmd<P>) -> (Cmd<P>, bool) {
    match c {
        Cmd::Modify { kind, phase, targets, base } => if phase == ModifyPhase::Selecting {
            (c, false)
        } else if phase == ModifyPhase::BasePoint {
            (Cmd::Modify { kind, phase: ModifyPhase::Selecting, targets, base: None }, true)
        } else {
            (Cmd::Modify { kind, phase: ModifyPhase::BasePoint, targets, base: None }, true)
        },
        _ => (c, false),
    }
}

/// Undoing the last point: the state after, and whether anything changed.
pub open spec fn undo_step<P>(c: Cmd<P>) -> (Cmd<P>, bool) {
    match c {
        Cmd::Line { first: Some(_) } => (Cmd::Line { first: None }, true),
        Cmd::Polyline { vertices } => if vertices.len() > 0 {
            (Cmd::Polyline { vertices: vertices.drop_last() }, true)
        } else {
            (c, false)
        },
        Cmd::AreaPoints { vertices } => if vertices.len() > 1 {
            (Cmd::AreaPoints { vertices: vertices.drop_last() }, true)
        } else if vertices.len() == 1 {
            (Cmd::AreaPrompt, true)
        } else {
            (c, false)
        },
        Cmd::Modify { .. } => modify_back(c),
        _ => (c, false),
    }
}

/// Going back one step: the state after, and whether anything changed.
pub open spec fn back_step<P>(c: Cmd<P>) -> (Cmd<P>, bool) {
    match c {
        Cmd::Circle { center: Some(_) } => (Cmd::Circle { center: None }, true),
        Cmd::Arc { start, mid } => if mid is Some {
            (Cmd::Arc { start, mid: None }, true)
        } else if start is Some {
            (Cmd::Arc { start: None, mid }, true)
        } else {
            (c, false)
        },
        Cmd::Rectangle { first: Some(_) } => (Cmd::Rectangle { first: None }, true),
        Cmd::Distance { first: Some(_) } => (Cmd::Distance { first: None }, true),
        Cmd::AngleSegment { .. } => (Cmd::AnglePrompt, true),
        Cmd::AngleRays { vertex, ray } => if ray is Some {
            (Cmd::AngleRays { vertex, ray: None }, true)
        } else if vertex is Some {
            (Cmd::AnglePrompt, true)
        } else {
            (c, false)
        },
        Cmd::AreaPoints { .. } => (Cmd::AreaPrompt, true),
        Cmd::Modify { .. } => modify_back(c),
        _ => (c, false),
    }
}

/// The phase a modification enters once it has its base point.
pub open spec fn phase_after_base(kind: ModifyKind) -> ModifyPhase {
    match kind {
        ModifyKind::Move | ModifyKind::Copy => ModifyPhase::Destination,
        ModifyKind::Rotate => ModifyPhase::Angle,
        ModifyKind::Mirror => ModifyPhase::MirrorSecond,
        ModifyKind::Scale => ModifyPhase::ScaleFactor,
        ModifyKind::Erase => ModifyPhase::Selecting,
    }
}

/// The rejection a check gives, with the command's own wording for a
/// degenerate point.
pub open spec fn refusal(check: Check, degenerate: Seq<char>) -> Seq<char> {
    match check {
        Check::Refused(m) => m,
        _ => degenerate,
    }
}

/// Whether a check refuses the point.
pub open spec fn refuses(check: Check) -> bool {
    check is Degenerate || check is Refused
}

/// Accepting a point: the state after and what the step produced. A point
/// the caller refused (such as one that is not finite) is rejected with the
/// caller's reason in every state; otherwise see `point_step`.
pub open spec fn accept_step<P>(c: Cmd<P>, p: P, check: Check) -> (Cmd<P>, Outcome<P>) {
    match check {
        Check::Refused(m) => (c, Outcome::Rejected(m)),
        _ => point_step(c, p, check),
    }
}

/// A point the caller did not refuse: the state after and what the step
/// produced. A step that completes a shape or measurement ends the command,
/// except a line, which waits for a new first point.
pub open spec fn point_step<P>(c: Cmd<P>, p: P, check: Check) -> (Cmd<P>, Outcome<P>) {
    match c {
        Cmd::Idle => (c, Outcome::Taken),
        Cmd::Line { first } => match first {
            None => (Cmd::Line { first: Some(p) }, Outcome::Taken),
            Some(f) => if refuses(check) {
                (c, Outcome::Rejected(refusal(check, "Length must be greater than zero"@)))
            } else {
                (Cmd::Line { first: None }, Outcome::Segment { start: f, end: p })
            },
        },
        Cmd::Polyline { vertices } => if vertices.len() > 0 && refuses(check) {
            (c, Outcome::Rejected(refusal(check, "Length must be greater than zero"@)))
        } else if vertices.len() >= 3 && check is ClosesLoop {
            (Cmd::Idle, Outcome::ClosedPolyline { vertices })
        } else {
            (Cmd::Polyline { vertices: vertices.push(p) }, Outcome::Taken)
        },
        Cmd::Circle { center } => match center {
            None => (Cmd::Circle { center: Some(p) }, Outcome::Taken),
            Some(o) => if refuses(check) {
                (c, Outcome::Rejected(refusal(check, "Radius is below the geometry tolerance"@)))
            } else {
                (Cmd::Idle, Outcome::Circle { center: o, rim: p })
            },
        },
        Cmd::Arc { start, mid } => match start {
            None => (Cmd::Arc { start: Some(p), mid }, Outcome::Taken),
            Some(s) => match mid {
                None => if refuses(check) {
                    (c, Outcome::Rejected(refusal(check, "Points are too close to define an arc"@)))
                } else {
                    (Cmd::Arc { start, mid: Some(p) }, Outcome::Taken)
                },
                Some(m) => if refuses(check) {
                    (c, Outcome::Rejected(refusal(check, "Points are too close to define an arc"@)))
                } else {
                    (Cmd::Idle, Outcome::Arc { start: s, mid: m, end: p })
                },
            },
        },
        Cmd::Rectangle { first } => match first {
            None => (Cmd::Rectangle { first: Some(p) }, Outcome::Taken),
            Some(f) => if refuses(check) {
                (
                    c,
                    Outcome::Rejected(
                        refusal(check, "Width and height must be greater than zero"@),
                    ),
                )
            } else {
                (Cmd::Idle, Outcome::Rectangle { first: f, opposite: p })
            },
        },
        Cmd::Distance { first } => match first {
            None => (Cmd::Distance { first: Some(p) }, Outcome::Taken),
            Some(f) => if refuses(check) {
                (c, Outcome::Rejected(refusal(check, "Distance must be greater than zero"@)))
            } else {
                (Cmd::Idle, Outcome::Distance { first: f, second: p })
            },
        },
        Cmd::AnglePrompt | Cmd::AngleSegment { .. } => (
            c,
            Outcome::Rejected("Select a straight segment, or click empty space"@),
        ),
        Cmd::AngleRays { vertex, ray } => match vertex {
            None => (Cmd::AngleRays { vertex: Some(p), ray }, Outcome::Taken),
            Some(v) => match ray {
                None => (Cmd::AngleRays { vertex, ray: Some(p) }, Outcome::Taken),
                Some(r) => if refuses(check) {
                    (c, Outcome::Rejected(refusal(check, "Directions are coincident or zero-length"@)))
                } else {
                    (Cmd::Idle, Outcome::Angle { vertex: v, ray: r, end: p })
                },
            },
        },
        Cmd::Radius => (c, Outcome::Rejected("Select a Circle or Arc"@)),
        Cmd::AreaPrompt => (c, Outcome::Rejected("Select a closed object or specify a point"@)),
        Cmd::AreaPoints { vertices } => if vertices.len() > 0 && refuses(check) {
            (c, Outcome::Rejected(refusal(check, "Points must be distinct"@)))
        } else {
            (Cmd::AreaPoints { vertices: vertices.push(p) }, Outcome::Taken)
        },
        Cmd::Modify { kind, phase, targets, base } => match phase {
            ModifyPhase::Selecting => (c, Outcome::Rejected("Select objects, then press Enter"@)),
            ModifyPhase::BasePoint => (
                Cmd::Modify { kind, phase: phase_after_base(kind), targets, base: Some(p) },
                Outcome::Taken,
            ),
            _ => (
                c,
                Outcome::Transform {
                    kind,
                    phase,
                    base: base.unwrap(),
                    point: p,
                    copies: match phase {
                        ModifyPhase::Destination => kind == ModifyKind::Copy || kind
                            == ModifyKind::Mirror,
                        ModifyPhase::MirrorSecond => true,
                        _ => false,
                    },
                },
            ),
        },
    }
}

/// Picking a straight segment for an angle measurement.
pub open spec fn segment_step<P>(c: Cmd<P>, start: P, end: P, check: Check) -> (Cmd<P>, Outcome<P>) {
    match c {
        Cmd::AnglePrompt => (Cmd::AngleSegment { start, end }, Outcome::Taken),
        Cmd::AngleSegment { start: a0, end: a1 } => if refuses(check) {
            (c, Outcome::Rejected(refusal(check, "Directions are coincident or zero-length"@)))
        } else {
            (
                Cmd::Idle,
                Outcome::SegmentAngle {
                    first_start: a0,
                    first_end: a1,
                    second_start: start,
                    second_end: end,
                },
            )
        },
        Cmd::AngleRays { .. } => (c, Outcome::Rejected("Specify a point for the current ray"@)),
        _ => (c, Outcome::Rejected("Angle is not active"@)),
    }
}

/// The prompt of a modification.
pub open spec fn modify_prompt_of(kind: ModifyKind, phase: ModifyPhase) -> Seq<char> {
    match kind {
        ModifyKind::Erase => "ERASE • Click objects to erase • Esc to finish"@,
        ModifyKind::Move => match phase {
            ModifyPhase::Selecting => "MOVE • Select objects"@,
            ModifyPhase::BasePoint => "MOVE • Specify base point"@,
            _ => "MOVE • Specify destination point"@,
        },
        ModifyKind::Copy => match phase {
            ModifyPhase::Selecting => "COPY • Select objects"@,
            ModifyPhase::BasePoint => "COPY • Specify base point"@,
            _ => "COPY • Specify destination point"@,
        },
        ModifyKind::Rotate => match phase {
            ModifyPhase::Selecting => "ROTATE • Select objects"@,
            ModifyPhase::BasePoint => "ROTATE • Specify base point"@,
            _ => "ROTATE • Specify rotation angle"@,
        },
        ModifyKind::Mirror => match phase {
            ModifyPhase::Selecting => "MIRROR • Select objects"@,
            ModifyPhase::BasePoint => "MIRROR • Specify first point of mirror line"@,
            _ => "MIRROR • Specify second point of mirror line"@,
        },
        ModifyKind::Scale => match phase {
            ModifyPhase::Selecting => "SCALE • Select objects"@,
            ModifyPhase::BasePoint => "SCALE • Specify base point"@,
            _ => "SCALE • Specify scale factor"@,
        },
    }
}

/// The status-bar prompt of a state.
pub open spec fn prompt_of<P>(c: Cmd<P>) -> Seq<char> {
    match c {
        Cmd::Idle => "Command: Ready"@,
        Cmd::Line { first } => if first is None {
            "LINE • Specify first point"@
        } else {
            "LINE • Specify second point"@
        },
        Cmd::Polyline { vertices } => if vertices.len() == 0 {
            "PLINE • Specify start point"@
        } else {
            "PLINE • Specify next vertex or press Enter to finish"@
        },
        Cmd::Circle { center } => if center is None {
            "CIRCLE • Specify center point"@
        } else {
            "CIRCLE • Specify radius"@
        },
        Cmd::Arc { start, mid } => if start is None {
            "ARC • Specify start point"@
        } else if mid is None {
            "ARC • Specify point on arc"@
        } else {
            "ARC • Specify end point"@
        },
        Cmd::Rectangle { first } => if first is None {
            "RECTANGLE • Specify first corner"@
        } else {
            "RECTANGLE • Specify opposite corner"@
        },
        Cmd::Distance { first } => if first is None {
            "DIST • Specify first point"@
        } else {
            "DIST • Specify second point"@
        },
        Cmd::AnglePrompt => "ANGLE • Select first line, or click empty space to specify the vertex"@,
        Cmd::AngleSegment { .. } => "ANGLE • Select second line"@,
        Cmd::AngleRays { vertex, ray } => if vertex is None {
            "ANGLE • Specify the vertex"@
        } else if ray is None {
            "ANGLE • Specify the first ray"@
        } else {
            "ANGLE • Specify the second ray"@
        },
        Cmd::Radius => "RADIUS • Select a Circle or Arc"@,
        Cmd::AreaPrompt => "AREA • Select a closed object or specify first point"@,
        Cmd::AreaPoints { vertices } => if vertices.len() < 3 {
            "AREA • Specify next boundary point"@
        } else {
            "AREA • Specify next point, or Enter to finish"@
        },
        Cmd::Modify { kind, phase, .. } => modify_prompt_of(kind, phase),
    }
}

fn check_refuses(check: PointCheck) -> (refused: bool)
    ensures
        refused == refuses(check@),
{
    matches!(check, PointCheck::Degenerate | PointCheck::Refused(_))
}

fn refusal_of(check: PointCheck, degenerate: &'static str) -> (message: &'static str)
    ensures
        message@ == refusal(check@, degenerate@),
{
    match check {
        PointCheck::Refused(m) => m,
        _ => degenerate,
    }
}

fn modify_prompt(kind: ModifyKind, phase: ModifyPhase) -> (prompt: &'static str)
    ensures
        prompt@ == modify_prompt_of(kind, phase),
{
    match kind {
        ModifyKind::Erase => "ERASE • Click objects to erase • Esc to finish",
        ModifyKind::Move => match phase {
            ModifyPhase::Selecting => "MOVE • Select objects",
            ModifyPhase::BasePoint => "MOVE • Specify base point",
            _ => "MOVE • Specify destination point",
        },
        ModifyKind::Copy => match phase {
            ModifyPhase::Selecting => "COPY • Select objects",
            ModifyPhase::BasePoint => "COPY • Specify base point",
            _ => "COPY • Specify destination point",
        },
        ModifyKind::Rotate => match phase {
            ModifyPhase::Selecting => "ROTATE • Select objects",
            ModifyPhase::BasePoint => "ROTATE • Specify base point",
            _ => "ROTATE • Specify rotation angle",
        },
        ModifyKind::Mirror => match phase {
            ModifyPhase::Selecting => "MIRROR • Select objects",
            ModifyPhase::BasePoint => "MIRROR • Specify first point of mirror line",
            _ => "MIRROR • Specify second point of mirror line",
        },
        ModifyKind::Scale => match phase {
            ModifyPhase::Selecting => "SCALE • Select objects",
            ModifyPhase::BasePoint => "SCALE • Specify base point",
            _ => "SCALE • Specify scale factor",
        },
    }
}

fn copy_points<P: Copy>(points: &Vec<P>) -> (copy: Vec<P>)
    ensures
        copy@ == points@,
{
    let mut copy: Vec<P> = Vec::new();
    let mut i: usize = 0;
    while i < points.len()
        invariant
            i <= points@.len(),
            copy@ == points@.take(i as int),
        decreases points@.len() - i,
    {
        copy.push(points[i]);
        assert(points@.take(i + 1) =~= points@.take(i as int).push(points@[i as int]));
        i = i + 1;
    }
    assert(points@.take(i as int) =~= points@);
    copy
}

fn accept_polyline<P: Copy>(mut vertices: Vec<P>, point: P, check: PointCheck) -> (step: (
    CommandState<P>,
    PointOutcome<P>,
))
    ensures
        (step.0@, step.1@) == point_step(Cmd::Polyline { vertices: vertices@ }, point, check@),
{
    if vertices.len() > 0 && check_refuses(check) {
        let message = refusal_of(check, "Length must be greater than zero");
        return (CommandState::Polyline(PolylineState { vertices }), PointOutcome::Rejected(message));
    }
    if vertices.len() >= 3 && matches!(check, PointCheck::ClosesLoop) {
        return (CommandState::Idle, PointOutcome::ClosedPolyline { vertices });
    }
    vertices.push(point);
    (CommandState::Polyline(PolylineState { vertices }), PointOutcome::Taken)
}

fn accept_arc<P: Copy>(state: ArcState<P>, point: P, check: PointCheck) -> (step: (
    CommandState<P>,
    PointOutcome<P>,
))
    ensures
        (step.0@, step.1@) == point_step(Cmd::Arc { start: state.start, mid: state.mid }, point, check@),
{
    match state.start {
        None => (CommandState::Arc(ArcState { start: Some(point), mid: state.mid }), PointOutcome::Taken),
        Some(s) => match state.mid {
            None => {
                if check_refuses(check) {
                    let message = refusal_of(check, "Points are too close to define an arc");
                    (CommandState::Arc(state), PointOutcome::Rejected(message))
                } else {
                    (CommandState::Arc(ArcState { start: Some(s), mid: Some(point) }), PointOutcome::Taken)
                }
            },
            Some(m) => {
                if check_refuses(check) {
                    let message = refusal_of(check, "Points are too close to define an arc");
                    (CommandState::Arc(state), PointOutcome::Rejected(message))
                } else {
                    (CommandState::Idle, PointOutcome::Arc { start: s, mid: m, end: point })
                }
            },
        },
    }
}

fn accept_angle<P: Copy>(state: AngleState<P>, point: P, check: PointCheck) -> (step: (
    CommandState<P>,
    PointOutcome<P>,
))
    ensures
        (step.0@, step.1@) == point_step(CommandState::Angle(state)@, point, check@),
{
    match state {
        AngleState::ThreePoint { vertex: None, ray } => (
            CommandState::Angle(AngleState::ThreePoint { vertex: Some(point), ray }),
            PointOutcome::Taken,
        ),
        AngleState::ThreePoint { vertex: Some(v), ray: None } => (
            CommandState::Angle(AngleState::ThreePoint { vertex: Some(v), ray: Some(point) }),
            PointOutcome::Taken,
        ),
        AngleState::ThreePoint { vertex: Some(v), ray: Some(r) } => {
            if check_refuses(check) {
                let message = refusal_of(check, "Directions are coincident or zero-length");
                (
                    CommandState::Angle(AngleState::ThreePoint { vertex: Some(v), ray: Some(r) }),
                    PointOutcome::Rejected(message),
                )
            } else {
                (CommandState::Idle, PointOutcome::Angle { vertex: v, ray: r, end: point })
            }
        },
        _ => (
            CommandState::Angle(state),
            PointOutcome::Rejected("Select a straight segment, or click empty space"),
        ),
    }
}

fn accept_area<P: Copy>(state: AreaState<P>, point: P, check: PointCheck) -> (step: (
    CommandState<P>,
    PointOutcome<P>,
))
    ensures
        (step.0@, step.1@) == point_step(CommandState::Area(state)@, point, check@),
{
    match state {
        AreaState::Prompt => (
            CommandState::Area(AreaState::Prompt),
            PointOutcome::Rejected("Select a closed object or specify a point"),
        ),
        AreaState::Points { mut vertices } => {
            if vertices.len() > 0 && check_refuses(check) {
                let message = refusal_of(check, "Points must be distinct");
                return (CommandState::Area(AreaState::Points { vertices }), PointOutcome::Rejected(message));
            }
            vertices.push(point);
            (CommandState::Area(AreaState::Points { vertices }), PointOutcome::Taken)
        },
    }
}

fn accept_modify<P: Copy>(state: ModifyState<P>, point: P) -> (step: (
    CommandState<P>,
    PointOutcome<P>,
))
    requires
        well_formed(CommandState::Modify(state)@),
    ensures
        (step.0@, step.1@) == point_step(CommandState::Modify(state)@, point, Check::Fits),
{
    match state.phase {
        ModifyPhase::Selecting => (
            CommandState::Modify(state),
            PointOutcome::Rejected("Select objects, then press Enter"),
        ),
        ModifyPhase::BasePoint => {
            let phase = match state.kind {
                ModifyKind::Move | ModifyKind::Copy => ModifyPhase::Destination,
                ModifyKind::Rotate => ModifyPhase::Angle,
                ModifyKind::Mirror => ModifyPhase::MirrorSecond,
                ModifyKind::Scale => ModifyPhase::ScaleFactor,
                ModifyKind::Erase => ModifyPhase::Selecting,
            };
            (
                CommandState::Modify(
                    ModifyState { kind: state.kind, phase, targets: state.targets, base: Some(point) },
                ),
                PointOutcome::Taken,
            )
        },
        _ => {
            let base = match state.base {
                Some(b) => b,
                None => {
                    assert(false);
                    point
                },
            };
            let copies = match state.phase {
                ModifyPhase::Destination => state.kind.creates_copies(),
                ModifyPhase::MirrorSecond => true,
                _ => false,
            };
            let outcome = PointOutcome::Transform {
                kind: state.kind,
                phase: state.phase,
                base,
                point,
                copies,
            };
            (CommandState::Modify(state), outcome)
        },
    }
}

/// Taking a state apart and putting the next one together.
fn accept_owned<P: Copy>(cur: CommandState<P>, point: P, check: PointCheck) -> (step: (
    CommandState<P>,
    PointOutcome<P>,
))
    requires
        base_ready(cur@),
    ensures
        (step.0@, step.1@) == point_step(cur@, point, check@),
{
    match cur {
        CommandState::Idle => (CommandState::Idle, PointOutcome::Taken),
        CommandState::Line(state) => match state.first {
            None => (CommandState::Line(LineState { first: Some(point) }), PointOutcome::Taken),
            Some(f) => {
                if check_refuses(check) {
                    let message = refusal_of(check, "Length must be greater than zero");
                    (CommandState::Line(state), PointOutcome::Rejected(message))
                } else {
                    (CommandState::Line(LineState { first: None }), PointOutcome::Segment { start: f, end: point })
                }
            },
        },
        CommandState::Polyline(state) => accept_polyline(state.vertices, point, check),
        CommandState::Circle(state) => match state.center {
            None => (CommandState::Circle(CircleState { center: Some(point) }), PointOutcome::Taken),
            Some(o) => {
                if check_refuses(check) {
                    let message = refusal_of(check, "Radius is below the geometry tolerance");
                    (CommandState::Circle(state), PointOutcome::Rejected(message))
                } else {
                    (CommandState::Idle, PointOutcome::Circle { center: o, rim: point })
                }
            },
        },
        CommandState::Arc(state) => accept_arc(state, point, check),
        CommandState::Rectangle(state) => match state.first {
            None => (CommandState::Rectangle(RectangleState { first: Some(point) }), PointOutcome::Taken),
            Some(f) => {
                if check_refuses(check) {
                    let message = refusal_of(check, "Width and height must be greater than zero");
                    (CommandState::Rectangle(state), PointOutcome::Rejected(message))
                } else {
                    (CommandState::Idle, PointOutcome::Rectangle { first: f, opposite: point })
                }
            },
        },
        CommandState::Distance(state) => match state.first {
            None => (CommandState::Distance(DistanceState { first: Some(point) }), PointOutcome::Taken),
            Some(f) => {
                if check_refuses(check) {
                    let message = refusal_of(check, "Distance must be greater than zero");
                    (CommandState::Distance(state), PointOutcome::Rejected(message))
                } else {
                    (CommandState::Idle, PointOutcome::Distance { first: f, second: point })
                }
            },
        },
        CommandState::Angle(state) => accept_angle(state, point, check),
        CommandState::Radius => (CommandState::Radius, PointOutcome::Rejected("Select a Circle or Arc")),
        CommandState::Area(state) => accept_area(state, point, check),
        CommandState::Modify(state) => accept_modify(state, point),
    }
}

impl<P> Default for CommandState<P> {
    fn default() -> (state: Self)
        ensures
            state@ == Cmd::<P>::Idle,
    {
        CommandState::Idle
    }
}

impl<P: Copy> CommandState<P> {
    pub fn kind(&self) -> (kind: CommandKind)
        ensures
            kind == kind_of(self@),
    {
        match self {
            CommandState::Idle => CommandKind::Idle,
            CommandState::Line(_) => CommandKind::Line,
            CommandState::Polyline(_) => CommandKind::Polyline,
            CommandState::Circle(_) => CommandKind::Circle,
            CommandState::Arc(_) => CommandKind::Arc,
            CommandState::Rectangle(_) => CommandKind::Rectangle,
            CommandState::Distance(_) => CommandKind::Distance,
            CommandState::Angle(_) => CommandKind::Angle,
            CommandState::Radius => CommandKind::Radius,
            CommandState::Area(_) => CommandKind::Area,
            CommandState::Modify(state) => state.kind.command_kind(),
        }
    }

    pub fn is_active(&self) -> (active: bool)
        ensures
            active == (kind_of(self@) != CommandKind::Idle),
    {
        self.kind().is_active()
    }

    pub fn is_idle(&self) -> (idle: bool)
        ensures
            idle == (kind_of(self@) == CommandKind::Idle),
    {
        self.kind().is_idle()
    }

    /// Whether the command is picking objects rather than points.
    pub fn is_selecting_objects(&self) -> (selecting: bool)
        ensures
            selecting == selecting_objects(self@),
    {
        match self {
            CommandState::Modify(state) => state.phase == ModifyPhase::Selecting,
            _ => false,
        }
    }

    /// Whether Erase is picking the objects it erases.
    pub fn is_erase_picking(&self) -> (picking: bool)
        ensures
            picking == (self@ matches Cmd::Modify { kind, phase, .. } && kind == ModifyKind::Erase
                && phase == ModifyPhase::Selecting),
    {
        match self {
            CommandState::Modify(state) => state.kind == ModifyKind::Erase && state.phase
                == ModifyPhase::Selecting,
            _ => false,
        }
    }

    /// The objects a modification works on.
    pub fn modify_targets(&self) -> (targets: &[EntityId])
        ensures
            targets@ == match self@ {
                Cmd::Modify { targets, .. } => targets,
                _ => Seq::<EntityId>::empty(),
            },
    {
        match self {
            CommandState::Modify(state) => state.targets.as_slice(),
            _ => &[],
        }
    }

    /// Whether the viewport should hand the command its next point.
    pub fn requests_point(&self) -> (requests: bool)
        ensures
            requests == (kind_of(self@) != CommandKind::Idle && !selecting_objects(self@)),
    {
        self.is_active() && !self.is_selecting_objects()
    }

    /// Whether running object snaps apply to the next point.
    pub fn uses_osnap(&self) -> (snaps: bool)
        ensures
            snaps == snaps_points(self@),
    {
        match self {
            CommandState::Angle(AngleState::Prompt) | CommandState::Angle(
                AngleState::FirstSegment { .. },
            ) | CommandState::Radius | CommandState::Area(AreaState::Prompt) | CommandState::Idle =>
                false,
            CommandState::Modify(state) => state.phase != ModifyPhase::Selecting,
            _ => true,
        }
    }

    pub fn start_line(&mut self)
        ensures
            final(self)@ == (Cmd::Line::<P> { first: None }),
    {
        *self = CommandState::Line(LineState { first: None });
    }

    pub fn start_polyline(&mut self)
        ensures
            final(self)@ == (Cmd::Polyline::<P> { vertices: Seq::empty() }),
    {
        *self = CommandState::Polyline(PolylineState { vertices: Vec::new() });
    }

    pub fn start_circle(&mut self)
        ensures
            final(self)@ == (Cmd::Circle::<P> { center: None }),
    {
        *self = CommandState::Circle(CircleState { center: None });
    }

    pub fn start_arc(&mut self)
        ensures
            final(self)@ == (Cmd::Arc::<P> { start: None, mid: None }),
    {
        *self = CommandState::Arc(ArcState { start: None, mid: None });
    }

    pub fn start_rectangle(&mut self)
        ensures
            final(self)@ == (Cmd::Rectangle::<P> { first: None }),
    {
        *self = CommandState::Rectangle(RectangleState { first: None });
    }

    pub fn start_distance(&mut self)
        ensures
            final(self)@ == (Cmd::Distance::<P> { first: None }),
    {
        *self = CommandState::Distance(DistanceState { first: None });
    }

    pub fn start_angle(&mut self)
        ensures
            final(self)@ == Cmd::<P>::AnglePrompt,
    {
        *self = CommandState::Angle(AngleState::Prompt);
    }

    pub fn start_radius(&mut self)
        ensures
            final(self)@ == Cmd::<P>::Radius,
    {
        *self = CommandState::Radius;
    }

    pub fn start_area(&mut self)
        ensures
            final(self)@ == Cmd::<P>::AreaPrompt,
    {
        *self = CommandState::Area(AreaState::Prompt);
    }

    /// Starts a modification on the current selection: Erase, or an empty
    /// selection, first picks objects; otherwise it asks for a base point.
    pub fn start_modify(&mut self, kind: ModifyKind, selected: Vec<EntityId>)
        ensures
            final(self)@ == (Cmd::Modify::<P> {
                kind,
                phase: if kind == ModifyKind::Erase || selected@.len() == 0 {
                    ModifyPhase::Selecting
                } else {
                    ModifyPhase::BasePoint
                },
                targets: selected@,
                base: None,
            }),
    {
        let phase = if kind == ModifyKind::Erase || selected.len() == 0 {
            ModifyPhase::Selecting
        } else {
            ModifyPhase::BasePoint
        };
        *self = CommandState::Modify(ModifyState { kind, phase, targets: selected, base: None });
    }

    /// The selection is confirmed: a modification takes it as its targets
    /// and (except Erase, which keeps picking) asks for a base point.
    pub fn confirm_modify_selection(&mut self, selected: Vec<EntityId>)
        ensures
            match old(self)@ {
                Cmd::Modify { kind, phase, base, .. } => final(self)@ == (if kind
                    == ModifyKind::Erase {
                    Cmd::Modify { kind, phase, targets: selected@, base }
                } else {
                    Cmd::Modify { kind, phase: ModifyPhase::BasePoint, targets: selected@, base: None }
                }),
                _ => final(self)@ == old(self)@,
            },
    {
        let mut cur = CommandState::Idle;
        std::mem::swap(self, &mut cur);
        match cur {
            CommandState::Modify(state) => {
                if state.kind == ModifyKind::Erase {
                    *self = CommandState::Modify(
                        ModifyState { kind: state.kind, phase: state.phase, targets: selected, base: state.base },
                    );
                } else {
                    *self = CommandState::Modify(
                        ModifyState {
                            kind: state.kind,
                            phase: ModifyPhase::BasePoint,
                            targets: selected,
                            base: None,
                        },
                    );
                }
            },
            other => {
                *self = other;
            },
        }
    }

    pub fn cancel(&mut self)
        ensures
            final(self)@ == Cmd::<P>::Idle,
    {
        *self = CommandState::Idle;
    }

    pub fn finish(&mut self)
        ensures
            final(self)@ == Cmd::<P>::Idle,
    {
        *self = CommandState::Idle;
    }

    /// The point a line or polyline started from.
    pub fn start_vertex(&self) -> (start: Option<P>)
        ensures
            start == start_vertex_of(self@),
    {
        match self {
            CommandState::Line(state) => state.first,
            CommandState::Polyline(state) => if state.vertices.len() > 0 {
                Some(state.vertices[0])
            } else {
                None
            },
            _ => None,
        }
    }

    /// The point the rubber band and the numeric fields measure from.
    pub fn base_point(&self) -> (base: Option<P>)
        ensures
            base == base_point_of(self@),
    {
        match self {
            CommandState::Line(state) => state.first,
            CommandState::Polyline(state) => if state.vertices.len() > 0 {
                Some(state.vertices[state.vertices.len() - 1])
            } else {
                None
            },
            CommandState::Circle(state) => state.center,
            CommandState::Arc(state) => if state.mid.is_some() {
                state.mid
            } else {
                state.start
            },
            CommandState::Rectangle(state) => state.first,
            CommandState::Distance(state) => state.first,
            CommandState::Angle(AngleState::ThreePoint { vertex, ray }) => if ray.is_some() {
                *ray
            } else {
                *vertex
            },
            CommandState::Area(AreaState::Points { vertices }) => if vertices.len() > 0 {
                Some(vertices[vertices.len() - 1])
            } else {
                None
            },
            CommandState::Modify(state) => state.base,
            _ => None,
        }
    }

    /// Which numeric fields the next point exposes.
    pub fn dynamic_layout(&self) -> (layout: DynamicLayout)
        ensures
            layout == layout_of(self@),
    {
        match self {
            CommandState::Line(state) => if state.first.is_some() {
                DynamicLayout::LengthAngle
            } else {
                DynamicLayout::Hidden
            },
            CommandState::Polyline(state) => if state.vertices.len() > 0 {
                DynamicLayout::LengthAngle
            } else {
                DynamicLayout::Hidden
            },
            CommandState::Circle(state) => if state.center.is_some() {
                DynamicLayout::Radius
            } else {
                DynamicLayout::Hidden
            },
            CommandState::Rectangle(state) => if state.first.is_some() {
                DynamicLayout::WidthHeight
            } else {
                DynamicLayout::Hidden
            },
            CommandState::Modify(state) => match state.phase {
                ModifyPhase::Destination => DynamicLayout::LengthAngle,
                ModifyPhase::Angle => DynamicLayout::Angle,
                ModifyPhase::ScaleFactor => DynamicLayout::Factor,
                _ => DynamicLayout::Hidden,
            },
            _ => DynamicLayout::Hidden,
        }
    }

    /// Whether Enter (or Finish) completes the command now.
    pub fn can_finish(&self) -> (finish: bool)
        ensures
            finish == finishable(self@),
    {
        match self {
            CommandState::Line(state) => state.first.is_some(),
            CommandState::Polyline(state) => state.vertices.len() >= 2,
            CommandState::Area(AreaState::Points { vertices }) => vertices.len() >= 3,
            CommandState::Circle(_) | CommandState::Arc(_) | CommandState::Rectangle(_) => true,
            CommandState::Modify(state) => state.phase == ModifyPhase::Selecting && (state.kind
                == ModifyKind::Erase || state.targets.len() > 0),
            _ => false,
        }
    }

    /// Whether the polyline can be closed; `ends_apart` says whether its
    /// first and last vertices are farther apart than the tolerance.
    pub fn can_close(&self, ends_apart: bool) -> (close: bool)
        ensures
            close == closable(self@, ends_apart),
    {
        match self {
            CommandState::Polyline(state) => state.vertices.len() >= 3 && ends_apart,
            _ => false,
        }
    }

    pub fn can_undo_last(&self) -> (undo: bool)
        ensures
            undo == undoable(self@),
    {
        match self {
            CommandState::Line(state) => state.first.is_some(),
            CommandState::Polyline(state) => state.vertices.len() > 0,
            CommandState::Area(AreaState::Points { vertices }) => vertices.len() > 0,
            CommandState::Modify(state) => state.phase != ModifyPhase::Selecting,
            _ => false,
        }
    }

    pub fn can_back(&self) -> (back: bool)
        ensures
            back == backable(self@),
    {
        match self {
            CommandState::Circle(state) => state.center.is_some(),
            CommandState::Arc(state) => state.start.is_some(),
            CommandState::Rectangle(state) => state.first.is_some(),
            CommandState::Distance(state) => state.first.is_some(),
            CommandState::Angle(AngleState::FirstSegment { .. }) => true,
            CommandState::Angle(AngleState::ThreePoint { vertex, ray }) => vertex.is_some()
                || ray.is_some(),
            CommandState::Area(AreaState::Points { .. }) => true,
            CommandState::Modify(state) => state.phase != ModifyPhase::Selecting,
            _ => false,
        }
    }
}

fn modify_back_owned<P: Copy>(state: ModifyState<P>) -> (step: (CommandState<P>, bool))
    ensures
        (step.0@, step.1) == modify_back(CommandState::Modify(state)@),
{
    match state.phase {
        ModifyPhase::Selecting => (CommandState::Modify(state), false),
        ModifyPhase::BasePoint => (
            CommandState::Modify(
                ModifyState {
                    kind: state.kind,
                    phase: ModifyPhase::Selecting,
                    targets: state.targets,
                    base: None,
                },
            ),
            true,
        ),
        _ => (
            CommandState::Modify(
                ModifyState {
                    kind: state.kind,
                    phase: ModifyPhase::BasePoint,
                    targets: state.targets,
                    base: None,
                },
            ),
            true,
        ),
    }
}

fn undo_owned<P: Copy>(cur: CommandState<P>) -> (step: (CommandState<P>, bool))
    ensures
        (step.0@, step.1) == undo_step(cur@),
{
    match cur {
        CommandState::Line(state) => {
            if state.first.is_some() {
                (CommandState::Line(LineState { first: None }), true)
            } else {
                (CommandState::Line(state), false)
            }
        },
        CommandState::Polyline(state) => {
            let mut vertices = state.vertices;
            if vertices.len() > 0 {
                vertices.pop();
                (CommandState::Polyline(PolylineState { vertices }), true)
            } else {
                (CommandState::Polyline(PolylineState { vertices }), false)
            }
        },
        CommandState::Area(AreaState::Points { mut vertices }) => {
            if vertices.len() > 1 {
                vertices.pop();
                (CommandState::Area(AreaState::Points { vertices }), true)
            } else if vertices.len() == 1 {
                (CommandState::Area(AreaState::Prompt), true)
            } else {
                (CommandState::Area(AreaState::Points { vertices }), false)
            }
        },
        CommandState::Modify(state) => modify_back_owned(state),
        other => (other, false),
    }
}

fn back_angle<P: Copy>(state: AngleState<P>) -> (step: (CommandState<P>, bool))
    ensures
        (step.0@, step.1) == back_step(CommandState::Angle(state)@),
{
    match state {
        AngleState::FirstSegment { .. } => (CommandState::Angle(AngleState::Prompt), true),
        AngleState::ThreePoint { vertex, ray } => {
            if ray.is_some() {
                (CommandState::Angle(AngleState::ThreePoint { vertex, ray: None }), true)
            } else if vertex.is_some() {
                (CommandState::Angle(AngleState::Prompt), true)
            } else {
                (CommandState::Angle(AngleState::ThreePoint { vertex, ray }), false)
            }
        },
        AngleState::Prompt => (CommandState::Angle(AngleState::Prompt), false),
    }
}

fn back_owned<P: Copy>(cur: CommandState<P>) -> (step: (CommandState<P>, bool))
    ensures
        (step.0@, step.1) == back_step(cur@),
{
    match cur {
        CommandState::Circle(state) => {
            if state.center.is_some() {
                (CommandState::Circle(CircleState { center: None }), true)
            } else {
                (CommandState::Circle(state), false)
            }
        },
        CommandState::Arc(state) => {
            if state.mid.is_some() {
                (CommandState::Arc(ArcState { start: state.start, mid: None }), true)
            } else if state.start.is_some() {
                (CommandState::Arc(ArcState { start: None, mid: state.mid }), true)
            } else {
                (CommandState::Arc(state), false)
            }
        },
        CommandState::Rectangle(state) => {
            if state.first.is_some() {
                (CommandState::Rectangle(RectangleState { first: None }), true)
            } else {
                (CommandState::Rectangle(state), false)
            }
        },
        CommandState::Distance(state) => {
            if state.first.is_some() {
                (CommandState::Distance(DistanceState { first: None }), true)
            } else {
                (CommandState::Distance(state), false)
            }
        },
        CommandState::Angle(state) => back_angle(state),
        CommandState::Area(AreaState::Points { .. }) => (CommandState::Area(AreaState::Prompt), true),
        CommandState::Modify(state) => modify_back_owned(state),
        other => (other, false),
    }
}

impl<P: Copy> CommandState<P> {
    /// Undoes the last accepted point (or modification phase); says whether
    /// there was one.
    pub fn undo_last(&mut self) -> (undone: bool)
        ensures
            (final(self)@, undone) == undo_step(old(self)@),
            undone == undoable(old(self)@),
            well_formed(old(self)@) ==> well_formed(final(self)@),
    {
        let mut cur = CommandState::Idle;
        std::mem::swap(self, &mut cur);
        let (next, undone) = undo_owned(cur);
        *self = next;
        undone
    }

    /// Steps back one stage of a two-point draw, a measurement or a
    /// modification; says whether there was one.
    pub fn back(&mut self) -> (went_back: bool)
        ensures
            (final(self)@, went_back) == back_step(old(self)@),
            well_formed(old(self)@) ==> went_back == backable(old(self)@),
            well_formed(old(self)@) ==> well_formed(final(self)@),
    {
        let mut cur = CommandState::Idle;
        std::mem::swap(self, &mut cur);
        let (next, went_back) = back_owned(cur);
        *self = next;
        went_back
    }

    /// Takes a viewport point; `check` is the caller's verdict on it (see
    /// `PointCheck`). See `accept_step` for what each command does with it.
    pub fn accept_point(&mut self, point: P, check: PointCheck) -> (outcome: PointOutcome<P>)
        requires
            base_ready(old(self)@),
        ensures
            (final(self)@, outcome@) == accept_step(old(self)@, point, check@),
            well_formed(old(self)@) ==> well_formed(final(self)@),
    {
        if let PointCheck::Refused(message) = check {
            return PointOutcome::Rejected(message);
        }
        let mut cur = CommandState::Idle;
        std::mem::swap(self, &mut cur);
        let (next, outcome) = accept_owned(cur, point, check);
        *self = next;
        outcome
    }

    /// Takes a straight segment picked for an angle measurement; `check`
    /// says whether it makes an angle with the first one.
    pub fn accept_straight_segment(&mut self, start: P, end: P, check: PointCheck) -> (outcome:
        PointOutcome<P>)
        ensures
            (final(self)@, outcome@) == segment_step(old(self)@, start, end, check@),
    {
        match self {
            CommandState::Angle(AngleState::Prompt) => {
                *self = CommandState::Angle(AngleState::FirstSegment { start, end });
                PointOutcome::Taken
            },
            CommandState::Angle(AngleState::FirstSegment { start: a0, end: a1 }) => {
                let (a0, a1) = (*a0, *a1);
                if check_refuses(check) {
                    PointOutcome::Rejected(refusal_of(check, "Directions are coincident or zero-length"))
                } else {
                    *self = CommandState::Idle;
                    PointOutcome::SegmentAngle {
                        first_start: a0,
                        first_end: a1,
                        second_start: start,
                        second_end: end,
                    }
                }
            },
            CommandState::Angle(AngleState::ThreePoint { .. }) => PointOutcome::Rejected(
                "Specify a point for the current ray",
            ),
            _ => PointOutcome::Rejected("Angle is not active"),
        }
    }

    /// A click on empty space while Angle waits: the point becomes the
    /// vertex of a three-point angle.
    pub fn begin_three_point_angle(&mut self, vertex: P) -> (outcome: PointOutcome<P>)
        ensures
            old(self)@ is AnglePrompt ==> final(self)@ == (Cmd::AngleRays {
                vertex: Some(vertex),
                ray: None,
            }) && outcome@ == Outcome::<P>::Taken,
            !(old(self)@ is AnglePrompt) ==> final(self)@ == old(self)@ && outcome@
                == Outcome::<P>::Rejected("Angle is not waiting for a vertex"@),
    {
        if !matches!(self, CommandState::Angle(AngleState::Prompt)) {
            return PointOutcome::Rejected("Angle is not waiting for a vertex");
        }
        *self = CommandState::Angle(AngleState::ThreePoint { vertex: Some(vertex), ray: None });
        PointOutcome::Taken
    }

    /// A click on empty space while Area waits: the point starts a boundary.
    pub fn begin_area_points(&mut self, first: P) -> (outcome: PointOutcome<P>)
        ensures
            old(self)@ is AreaPrompt ==> final(self)@ == (Cmd::AreaPoints {
                vertices: seq![first],
            }) && outcome@ == Outcome::<P>::Taken,
            !(old(self)@ is AreaPrompt) ==> final(self)@ == old(self)@ && outcome@
                == Outcome::<P>::Rejected("Area is not waiting for a point"@),
    {
        if !matches!(self, CommandState::Area(AreaState::Prompt)) {
            return PointOutcome::Rejected("Area is not waiting for a point");
        }
        let mut vertices: Vec<P> = Vec::new();
        vertices.push(first);
        *self = CommandState::Area(AreaState::Points { vertices });
        assert(self@ == (Cmd::AreaPoints { vertices: seq![first] }));
        PointOutcome::Taken
    }

    /// The boundary an area measurement would be taken over, once it has
    /// three points.
    pub fn measurement_points(&self) -> (points: Option<Vec<P>>)
        ensures
            match points {
                Some(v) => area_boundary(self@) == Some(v@),
                None => area_boundary(self@) is None,
            },
            match self@ {
                Cmd::AreaPoints { vertices } => if vertices.len() >= 3 {
                    points matches Some(v) && v@ == vertices
                } else {
                    points is None
                },
                _ => points is None,
            },
    {
        match self {
            CommandState::Area(AreaState::Points { vertices }) => {
                if vertices.len() >= 3 {
                    Some(copy_points(vertices))
                } else {
                    None
                }
            },
            _ => None,
        }
    }

    /// Ends an area measurement once the caller measured its boundary
    /// (`measured`); says whether there was a boundary to measure.
    pub fn finish_measurement(&mut self, measured: bool) -> (ready: bool)
        ensures
            ready == (old(self)@ matches Cmd::AreaPoints { vertices } && vertices.len() >= 3),
            ready == area_boundary(old(self)@) is Some,
            ready && measured ==> final(self)@ == Cmd::<P>::Idle,
            !(ready && measured) ==> final(self)@ == old(self)@,
    {
        let ready = match self {
            CommandState::Area(AreaState::Points { vertices }) => vertices.len() >= 3,
            _ => false,
        };
        if ready && measured {
            *self = CommandState::Idle;
        }
        ready
    }

    /// The vertices an open polyline finishes with (two or more).
    pub fn finish_vertices(&self) -> (vertices: Option<Vec<P>>)
        ensures
            match vertices {
                Some(v) => open_polyline(self@) == Some(v@),
                None => open_polyline(self@) is None,
            },
            match self@ {
                Cmd::Polyline { vertices: vs } => if vs.len() >= 2 {
                    vertices matches Some(v) && v@ == vs
                } else {
                    vertices is None
                },
                _ => vertices is None,
            },
    {
        match self {
            CommandState::Polyline(state) => {
                if state.vertices.len() >= 2 {
                    Some(copy_points(&state.vertices))
                } else {
                    None
                }
            },
            _ => None,
        }
    }

    /// The vertices a polyline closes with, when it can be closed.
    pub fn close_vertices(&self, ends_apart: bool) -> (vertices: Option<Vec<P>>)
        ensures
            closable(self@, ends_apart) ==> (vertices matches Some(v) && self@ matches Cmd::Polyline {
                vertices: vs,
            } && v@ == vs),
            !closable(self@, ends_apart) ==> vertices is None,
    {
        match self {
            CommandState::Polyline(state) => {
                if state.vertices.len() >= 3 && ends_apart {
                    Some(copy_points(&state.vertices))
                } else {
                    None
                }
            },
            _ => None,
        }
    }

    /// Takes a modification point together with the values typed for its
    /// angle and factor: what `accept_point` hands back (the point is not
    /// refused), and the typed value the transform uses, the angle for a
    /// rotation and the factor for a scale, in place of the cursor.
    pub fn accept_modify_point<V: Copy>(
        &mut self,
        point: P,
        typed_angle: Option<V>,
        typed_factor: Option<V>,
    ) -> (step: (PointOutcome<P>, Option<V>))
        requires
            base_ready(old(self)@),
        ensures
            (final(self)@, step.0@) == accept_step(old(self)@, point, Check::Fits),
            well_formed(old(self)@) ==> well_formed(final(self)@),
            step.1 == match step.0@ {
                Outcome::Transform { phase, .. } => if phase == ModifyPhase::Angle {
                    typed_angle
                } else if phase == ModifyPhase::ScaleFactor {
                    typed_factor
                } else {
                    None
                },
                _ => None,
            },
    {
        let outcome = self.accept_point(point, PointCheck::Fits);
        let typed = match &outcome {
            PointOutcome::Transform { phase, .. } => match phase {
                ModifyPhase::Angle => typed_angle,
                ModifyPhase::ScaleFactor => typed_factor,
                _ => None,
            },
            _ => None,
        };
        (outcome, typed)
    }

    /// The mirror line being drawn: the base point to the cursor.
    pub fn preview_mirror_axis(&self, current: Option<P>) -> (axis: Option<(P, P)>)
        ensures
            axis == match self@ {
                Cmd::Modify { kind, phase, base, .. } => if kind == ModifyKind::Mirror && phase
                    == ModifyPhase::MirrorSecond && base is Some && current is Some {
                    Some((base.unwrap(), current.unwrap()))
                } else {
                    None
                },
                _ => None,
            },
    {
        match self {
            CommandState::Modify(state) => {
                if state.kind != ModifyKind::Mirror || state.phase != ModifyPhase::MirrorSecond {
                    return None;
                }
                match (state.base, current) {
                    (Some(b), Some(c)) => Some((b, c)),
                    _ => None,
                }
            },
            _ => None,
        }
    }

    /// The status-bar prompt.
    pub fn prompt(&self) -> (prompt: &'static str)
        ensures
            prompt@ == prompt_of(self@),
    {
        match self {
            CommandState::Idle => "Command: Ready",
            CommandState::Line(state) => if state.first.is_none() {
                "LINE • Specify first point"
            } else {
                "LINE • Specify second point"
            },
            CommandState::Polyline(state) => if state.vertices.len() == 0 {
                "PLINE • Specify start point"
            } else {
                "PLINE • Specify next vertex or press Enter to finish"
            },
            CommandState::Circle(state) => if state.center.is_none() {
                "CIRCLE • Specify center point"
            } else {
                "CIRCLE • Specify radius"
            },
            CommandState::Arc(state) => if state.start.is_none() {
                "ARC • Specify start point"
            } else if state.mid.is_none() {
                "ARC • Specify point on arc"
            } else {
                "ARC • Specify end point"
            },
            CommandState::Rectangle(state) => if state.first.is_none() {
                "RECTANGLE • Specify first corner"
            } else {
                "RECTANGLE • Specify opposite corner"
            },
            CommandState::Distance(state) => if state.first.is_none() {
                "DIST • Specify first point"
            } else {
                "DIST • Specify second point"
            },
            CommandState::Angle(AngleState::Prompt) =>
                "ANGLE • Select first line, or click empty space to specify the vertex",
            CommandState::Angle(AngleState::FirstSegment { .. }) => "ANGLE • Select second line",
            CommandState::Angle(AngleState::ThreePoint { vertex, ray }) => if vertex.is_none() {
                "ANGLE • Specify the vertex"
            } else if ray.is_none() {
                "ANGLE • Specify the first ray"
            } else {
                "ANGLE • Specify the second ray"
            },
            CommandState::Radius => "RADIUS • Select a Circle or Arc",
            CommandState::Area(AreaState::Prompt) => "AREA • Select a closed object or specify first point",
            CommandState::Area(AreaState::Points { vertices }) => if vertices.len() < 3 {
                "AREA • Specify next boundary point"
            } else {
                "AREA • Specify next point, or Enter to finish"
            },
            CommandState::Modify(state) => modify_prompt(state.kind, state.phase),
        }
    }
}

/// A point either keeps the command running or ends it: the command kind
/// stays unless the state falls back to idle, a rejected point leaves the
/// state as it was, and the state falls back to idle only when the point
/// completed a shape or measurement.
pub proof fn lemma_accept_keeps_or_ends_command<P>(c: Cmd<P>, p: P, check: Check)
    requires
        well_formed(c),
    ensures
        ({
            let (next, outcome) = accept_step(c, p, check);
            &&& kind_of(next) == kind_of(c) || next == Cmd::<P>::Idle
            &&& outcome is Rejected ==> next == c
            &&& (next == Cmd::<P>::Idle && c != Cmd::<P>::Idle) ==> !(outcome is Taken)
                && !(outcome is Rejected)
            &&& well_formed(next)
        }),
{
}

/// Undo takes back exactly the point a line, polyline or area boundary
/// just took.
pub proof fn lemma_undo_takes_back_point<P>(c: Cmd<P>, p: P, check: Check)
    requires
        well_formed(c),
        c is Line || c is Polyline || c is AreaPoints,
        accept_step(c, p, check).1 is Taken,
    ensures
        undo_step(accept_step(c, p, check).0) == (c, true),
{
    match c {
        Cmd::Polyline { vertices } => {
            assert(vertices.push(p).drop_last() =~= vertices);
        },
        Cmd::AreaPoints { vertices } => {
            assert(vertices.push(p).drop_last() =~= vertices);
        },
        _ => {},
    }
}

/// Back undoes the point a two-point draw, a distance, a three-point angle
/// or a modification's base point just took.
pub proof fn lemma_back_takes_back_point<P>(c: Cmd<P>, p: P, check: Check)
    requires
        well_formed(c),
        c is Circle || c is Arc || c is Rectangle || c is Distance || (c matches Cmd::AngleRays {
            vertex,
            ..
        } && vertex is Some) || (c matches Cmd::Modify { kind, phase, base, .. } && phase
            == ModifyPhase::BasePoint && base is None && kind != ModifyKind::Erase),
        accept_step(c, p, check).1 is Taken,
    ensures
        back_step(accept_step(c, p, check).0) == (c, true),
{
}


/// The corners of the axis-aligned rectangle with opposite corners
/// `first` and `opposite`, in drawing order: `first`, along x, `opposite`,
/// along y.
pub fn rectangle_corners<C: Copy>(first: (C, C), opposite: (C, C)) -> (corners: [(C, C); 4])
    ensures
        corners@ == seq![first, (opposite.0, first.1), opposite, (first.0, opposite.1)],
{
    let corners = [first, (opposite.0, first.1), opposite, (first.0, opposite.1)];
    assert(corners@ =~= seq![first, (opposite.0, first.1), opposite, (first.0, opposite.1)]);
    corners
}

} // verus!
