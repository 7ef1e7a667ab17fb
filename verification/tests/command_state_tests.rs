use mycad::command_state::{
    rectangle_corners, AngleState, AreaState, CommandState, PointCheck, PointOutcome,
};
use mycad::commands::{CommandKind, ModifyKind, ModifyPhase};
use mycad::dynamic_input::DynamicLayout;
use mycad::selection::EntityId;

type P = (f64, f64);
const TOL: f64 = 1e-9;

fn dist(a: P, b: P) -> f64 {
    ((a.0 - b.0).powi(2) + (a.1 - b.1).powi(2)).sqrt()
}

/// The geometric verdict the window code gives a candidate point.
fn verdict(command: &CommandState<P>, p: P) -> PointCheck {
    let near = |a: P| dist(a, p) <= TOL;
    match command {
        CommandState::Line(s) => match s.first {
            Some(f) if near(f) => PointCheck::Degenerate,
            _ => PointCheck::Fits,
        },
        CommandState::Polyline(s) => {
            let v = &s.vertices;
            if v.last().is_some_and(|l| near(*l)) {
                PointCheck::Degenerate
            } else if v.len() >= 3 && dist(v[0], *v.last().unwrap()) > TOL && near(v[0]) {
                PointCheck::ClosesLoop
            } else {
                PointCheck::Fits
            }
        }
        CommandState::Circle(s) => match s.center {
            Some(c) if near(c) => PointCheck::Degenerate,
            _ => PointCheck::Fits,
        },
        CommandState::Arc(s) => match (s.start, s.mid) {
            (Some(a), None) if near(a) => PointCheck::Degenerate,
            (Some(a), Some(m)) => {
                let cross = (m.0 - a.0) * (p.1 - a.1) - (m.1 - a.1) * (p.0 - a.0);
                if cross.abs() <= TOL {
                    PointCheck::Refused("Points are collinear")
                } else {
                    PointCheck::Fits
                }
            }
            _ => PointCheck::Fits,
        },
        CommandState::Rectangle(s) => match s.first {
            Some(f) if (p.0 - f.0).abs() <= TOL || (p.1 - f.1).abs() <= TOL => PointCheck::Degenerate,
            _ => PointCheck::Fits,
        },
        CommandState::Distance(s) => match s.first {
            Some(f) if near(f) => PointCheck::Degenerate,
            _ => PointCheck::Fits,
        },
        CommandState::Area(AreaState::Points { vertices }) => {
            if vertices.last().is_some_and(|l| near(*l)) {
                PointCheck::Degenerate
            } else {
                PointCheck::Fits
            }
        }
        _ => PointCheck::Fits,
    }
}

fn accept(command: &mut CommandState<P>, p: P) -> PointOutcome<P> {
    let check = verdict(command, p);
    command.accept_point(p, check)
}

#[test]
fn line_command_emits_each_completed_segment() {
    let mut command = CommandState::Idle;
    command.start_line();
    assert_eq!(command.prompt(), "LINE • Specify first point");
    assert_eq!(accept(&mut command, (1.0, 2.0)), PointOutcome::Taken);
    assert_eq!(command.prompt(), "LINE • Specify second point");
    assert_eq!(
        accept(&mut command, (5.0, 2.0)),
        PointOutcome::Segment { start: (1.0, 2.0), end: (5.0, 2.0) }
    );
    assert_eq!(command.base_point(), None);
    assert_eq!(command.kind(), CommandKind::Line);
    assert_eq!(command.prompt(), "LINE • Specify first point");
}

#[test]
fn line_resets_after_commit_and_does_not_chain() {
    let mut command = CommandState::Idle;
    command.start_line();
    assert_eq!(accept(&mut command, (0.0, 0.0)), PointOutcome::Taken);
    assert_eq!(
        accept(&mut command, (10.0, 0.0)),
        PointOutcome::Segment { start: (0.0, 0.0), end: (10.0, 0.0) }
    );
    assert_eq!(command.base_point(), None);
    assert_eq!(accept(&mut command, (4.0, 6.0)), PointOutcome::Taken);
    assert_eq!(command.base_point(), Some((4.0, 6.0)));
    assert_eq!(
        accept(&mut command, (4.0, 9.0)),
        PointOutcome::Segment { start: (4.0, 6.0), end: (4.0, 9.0) }
    );
    assert_eq!(command.kind(), CommandKind::Line);
    assert_eq!(command.base_point(), None);
}

#[test]
fn polyline_stays_continuous_after_each_vertex() {
    let mut command = CommandState::Idle;
    command.start_polyline();
    accept(&mut command, (0.0, 0.0));
    accept(&mut command, (3.0, 0.0));
    assert_eq!(command.base_point(), Some((3.0, 0.0)));
    accept(&mut command, (3.0, 4.0));
    assert_eq!(command.base_point(), Some((3.0, 4.0)));
    assert_eq!(command.kind(), CommandKind::Polyline);
    assert_eq!(command.finish_vertices().map(|v| v.len()), Some(3));
}

#[test]
fn escape_style_cancel_returns_to_idle() {
    let mut command: CommandState<P> = CommandState::Idle;
    command.start_line();
    command.cancel();
    assert_eq!(command, CommandState::Idle);
    assert_eq!(command.kind(), CommandKind::Idle);
}

#[test]
fn distance_command_reports_two_points_then_idles() {
    let mut command = CommandState::Idle;
    command.start_distance();
    assert_eq!(accept(&mut command, (0.0, 0.0)), PointOutcome::Taken);
    assert_eq!(
        accept(&mut command, (3.0, 4.0)),
        PointOutcome::Distance { first: (0.0, 0.0), second: (3.0, 4.0) }
    );
    assert_eq!(command, CommandState::Idle);
}

#[test]
fn polyline_close_and_undo_keep_one_object() {
    let mut command = CommandState::Idle;
    command.start_polyline();
    assert_eq!(accept(&mut command, (0.0, 0.0)), PointOutcome::Taken);
    accept(&mut command, (2.0, 0.0));
    accept(&mut command, (2.0, 2.0));
    assert!(command.can_finish());
    assert!(command.can_close(true));
    assert!(command.can_undo_last());
    assert!(command.undo_last());
    assert!(!command.can_close(true));
    accept(&mut command, (0.0, 2.0));
    let closed = command.close_vertices(true).expect("closed polyline");
    assert_eq!(closed.len(), 3);
    assert!(command.finish_vertices().is_some());
    command.cancel();
    assert_eq!(command, CommandState::Idle);
}

#[test]
fn rectangle_commits_closed_four_vertex_polyline() {
    let mut command = CommandState::Idle;
    command.start_rectangle();
    accept(&mut command, (1.0, 2.0));
    let PointOutcome::Rectangle { first, opposite } = accept(&mut command, (4.0, 6.0)) else {
        panic!("expected rectangle");
    };
    let vertices = rectangle_corners(first, opposite);
    assert_eq!(vertices.len(), 4);
    assert_eq!(vertices[0], (1.0, 2.0));
    assert_eq!(vertices[2], (4.0, 6.0));
    assert_eq!(command, CommandState::Idle);
}

#[test]
fn rectangle_rejects_zero_height() {
    let mut command = CommandState::Idle;
    command.start_rectangle();
    accept(&mut command, (0.0, 0.0));
    assert!(matches!(accept(&mut command, (4.0, 0.0)), PointOutcome::Rejected(_)));
    assert_eq!(command.kind(), CommandKind::Rectangle);
}

#[test]
fn circle_center_radius_commits_world_z_circle() {
    let mut command = CommandState::Idle;
    command.start_circle();
    accept(&mut command, (3.0, 4.0));
    assert_eq!(
        accept(&mut command, (6.0, 4.0)),
        PointOutcome::Circle { center: (3.0, 4.0), rim: (6.0, 4.0) }
    );
    assert_eq!(command, CommandState::Idle);
}

#[test]
fn circle_rejects_tiny_radius() {
    let mut command = CommandState::Idle;
    command.start_circle();
    accept(&mut command, (0.0, 0.0));
    assert_eq!(
        accept(&mut command, (0.0, 0.0)),
        PointOutcome::Rejected("Radius is below the geometry tolerance")
    );
    assert_eq!(command.kind(), CommandKind::Circle);
}

#[test]
fn arc_back_and_reject_keep_command_active() {
    let mut command = CommandState::Idle;
    command.start_arc();
    accept(&mut command, (0.0, 0.0));
    accept(&mut command, (1.0, 0.0));
    assert!(command.can_back());
    assert!(matches!(accept(&mut command, (2.0, 0.0)), PointOutcome::Rejected(_)));
    assert_eq!(command.kind(), CommandKind::Arc);
    assert!(command.back());
    assert!(command.back());
    assert!(!command.can_back());
}

#[test]
fn three_point_arc_command_accepts_cw_and_ccw() {
    for mid in [(0.0, 1.0), (0.0, -1.0)] {
        let mut command = CommandState::Idle;
        command.start_arc();
        accept(&mut command, (1.0, 0.0));
        accept(&mut command, mid);
        assert_eq!(
            accept(&mut command, (-1.0, 0.0)),
            PointOutcome::Arc { start: (1.0, 0.0), mid, end: (-1.0, 0.0) }
        );
        assert_eq!(command, CommandState::Idle);
    }
}

#[test]
fn angle_two_segments_then_idles() {
    let mut command: CommandState<P> = CommandState::Idle;
    command.start_angle();
    assert_eq!(
        command.accept_straight_segment((0.0, 0.0), (10.0, 0.0), PointCheck::Fits),
        PointOutcome::Taken
    );
    assert_eq!(
        command.accept_straight_segment((0.0, 0.0), (0.0, 4.0), PointCheck::Fits),
        PointOutcome::SegmentAngle {
            first_start: (0.0, 0.0),
            first_end: (10.0, 0.0),
            second_start: (0.0, 0.0),
            second_end: (0.0, 4.0),
        }
    );
    assert_eq!(command, CommandState::Idle);
}

#[test]
fn area_point_boundary_finishes_without_geometry() {
    let mut command = CommandState::Idle;
    command.start_area();
    command.begin_area_points((0.0, 0.0));
    accept(&mut command, (4.0, 0.0));
    accept(&mut command, (4.0, 3.0));
    accept(&mut command, (0.0, 3.0));
    let boundary = command.measurement_points().expect("area finish");
    assert_eq!(boundary, vec![(0.0, 0.0), (4.0, 0.0), (4.0, 3.0), (0.0, 3.0)]);
    assert!(command.finish_measurement(true));
    assert_eq!(command, CommandState::Idle);
}

#[test]
fn snapping_to_first_polyline_vertex_closes_without_duplicating() {
    let mut command = CommandState::Idle;
    command.start_polyline();
    let first = (0.0, 0.0);
    accept(&mut command, first);
    accept(&mut command, (4.0, 0.0));
    accept(&mut command, (4.0, 3.0));
    let PointOutcome::ClosedPolyline { vertices } = accept(&mut command, first) else {
        panic!("expected closed polyline");
    };
    assert_eq!(vertices.len(), 3);
    assert_eq!(vertices[0], first);
    assert_eq!(command, CommandState::Idle);
}

#[test]
fn two_vertex_polyline_does_not_close_on_start_snap() {
    let mut command = CommandState::Idle;
    command.start_polyline();
    let first = (0.0, 0.0);
    accept(&mut command, first);
    accept(&mut command, (5.0, 0.0));
    assert_eq!(accept(&mut command, first), PointOutcome::Taken);
    assert_eq!(command.kind(), CommandKind::Polyline);
    assert_eq!(command.finish_vertices().map(|v| v.len()), Some(3));
    // the ends now coincide
    assert!(!command.can_close(false));
}

#[test]
fn explicit_close_sets_flag_without_appending_start() {
    let mut command = CommandState::Idle;
    command.start_polyline();
    accept(&mut command, (0.0, 0.0));
    accept(&mut command, (1.0, 0.0));
    accept(&mut command, (1.0, 1.0));
    let closed = command.close_vertices(true).expect("closed polyline");
    assert_eq!(closed.len(), 3);
    assert_eq!(closed[0], (0.0, 0.0));
    assert_ne!(*closed.last().unwrap(), closed[0]);
    assert_eq!(command.kind(), CommandKind::Polyline);
}

#[test]
fn modify_selection_first_asks_for_base_point() {
    let mut command = CommandState::Idle;
    command.start_modify(ModifyKind::Move, vec![EntityId(3)]);
    assert!(!command.is_selecting_objects());
    assert!(command.requests_point());
    assert_eq!(command.modify_targets(), &[EntityId(3)]);
    assert_eq!(accept(&mut command, (1.0, 1.0)), PointOutcome::Taken);
    assert_eq!(
        accept(&mut command, (4.0, 5.0)),
        PointOutcome::Transform {
            kind: ModifyKind::Move,
            phase: ModifyPhase::Destination,
            base: (1.0, 1.0),
            point: (4.0, 5.0),
            copies: false,
        }
    );
    assert_eq!(command.kind(), CommandKind::Move);
}

#[test]
fn modify_command_first_enters_selection_phase() {
    let mut command: CommandState<P> = CommandState::Idle;
    command.start_modify(ModifyKind::Copy, Vec::new());
    assert!(command.is_selecting_objects());
    assert!(!command.requests_point());
    command.confirm_modify_selection(vec![EntityId(1), EntityId(2)]);
    assert!(!command.is_selecting_objects());
    assert!(command.requests_point());
}

#[test]
fn copy_and_mirror_request_copies() {
    let mut command = CommandState::Idle;
    command.start_modify(ModifyKind::Copy, vec![EntityId(1)]);
    accept(&mut command, (0.0, 0.0));
    let PointOutcome::Transform { copies, .. } = accept(&mut command, (1.0, 0.0)) else {
        panic!("copy");
    };
    assert!(copies);
    command.start_modify(ModifyKind::Mirror, vec![EntityId(1)]);
    accept(&mut command, (0.0, 0.0));
    let PointOutcome::Transform { copies, .. } = accept(&mut command, (0.0, 1.0)) else {
        panic!("mirror");
    };
    assert!(copies);
}

#[test]
fn esc_style_modify_cancel_returns_idle() {
    let mut command: CommandState<P> = CommandState::Idle;
    command.start_modify(ModifyKind::Rotate, vec![EntityId(8)]);
    command.cancel();
    assert_eq!(command, CommandState::Idle);
}

#[test]
fn erase_stays_in_selection_phase_even_with_preselection() {
    let mut command: CommandState<P> = CommandState::Idle;
    command.start_modify(ModifyKind::Erase, vec![EntityId(4)]);
    assert!(command.is_selecting_objects());
    assert!(!command.requests_point());
}

#[test]
fn rotate_uses_signed_typed_angle() {
    let mut command = CommandState::Idle;
    command.start_modify(ModifyKind::Rotate, vec![EntityId(1)]);
    command.accept_modify_point((0.0, 0.0), None::<f64>, None);
    assert_eq!(command.dynamic_layout(), DynamicLayout::Angle);
    let (outcome, typed) = command.accept_modify_point((10.0, 0.0), Some(-90.0_f64), None);
    let PointOutcome::Transform { phase, copies, .. } = outcome else {
        panic!("rotate");
    };
    assert_eq!(phase, ModifyPhase::Angle);
    let radians = typed.expect("the typed angle").to_radians();
    assert!((radians + std::f64::consts::FRAC_PI_2).abs() < 1e-12);
    assert!(!copies);
}

#[test]
fn scale_prefers_typed_factor_over_cursor() {
    let mut command = CommandState::Idle;
    command.start_modify(ModifyKind::Scale, vec![EntityId(1)]);
    command.accept_modify_point((0.0, 0.0), None, None::<f64>);
    assert_eq!(command.dynamic_layout(), DynamicLayout::Factor);
    let (outcome, typed) = command.accept_modify_point((100.0, 0.0), None, Some(2.5_f64));
    let PointOutcome::Transform { phase, copies, .. } = outcome else {
        panic!("scale");
    };
    assert_eq!(phase, ModifyPhase::ScaleFactor);
    let factor = typed.expect("the typed factor");
    assert!((factor - 2.5).abs() < 1e-12);
    assert!(!copies);
}

#[test]
fn undo_and_back_step_through_a_modification() {
    let mut command = CommandState::Idle;
    command.start_modify(ModifyKind::Move, vec![EntityId(2)]);
    accept(&mut command, (1.0, 1.0));
    assert!(command.can_back());
    assert!(command.back());
    assert_eq!(command.prompt(), "MOVE • Specify base point");
    assert!(command.undo_last());
    assert!(command.is_selecting_objects());
    assert!(!command.undo_last());
}

#[test]
fn three_point_angle_takes_vertex_then_rays() {
    let mut command = CommandState::Idle;
    command.start_angle();
    assert!(matches!(accept(&mut command, (1.0, 1.0)), PointOutcome::Rejected(_)));
    assert_eq!(command.begin_three_point_angle((0.0, 0.0)), PointOutcome::Taken);
    assert_eq!(command.prompt(), "ANGLE • Specify the first ray");
    assert_eq!(accept(&mut command, (1.0, 0.0)), PointOutcome::Taken);
    assert_eq!(
        accept(&mut command, (0.0, 1.0)),
        PointOutcome::Angle { vertex: (0.0, 0.0), ray: (1.0, 0.0), end: (0.0, 1.0) }
    );
    assert_eq!(command, CommandState::Idle);
    let mut waiting: CommandState<P> = CommandState::Angle(AngleState::Prompt);
    assert!(waiting.back() == false);
}

#[test]
fn area_undo_of_the_only_point_returns_to_the_prompt() {
    let mut command = CommandState::Idle;
    command.start_area();
    command.begin_area_points((0.0, 0.0));
    assert!(command.undo_last());
    assert_eq!(command, CommandState::Area(AreaState::Prompt));
}

#[test]
fn a_refused_first_point_is_not_taken() {
    let mut command: CommandState<P> = CommandState::Idle;
    command.start_circle();
    let outcome = command.accept_point((f64::NAN, 0.0), PointCheck::Refused("Point is not finite"));
    assert_eq!(outcome, PointOutcome::Rejected("Point is not finite"));
    assert!(matches!(&command, CommandState::Circle(state) if state.center.is_none()));
    let mut idle: CommandState<P> = CommandState::Idle;
    let outcome = idle.accept_point((f64::INFINITY, 0.0), PointCheck::Refused("Point is not finite"));
    assert_eq!(outcome, PointOutcome::Rejected("Point is not finite"));
}
