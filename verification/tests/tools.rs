//! Editor tool state machines: click sequences and the segments they build.

use linefollower::sdf_paths::{Direction, SubPath};
use linefollower::tools::{
    ArcPathTool, ArcPathToolState, FreeTool, LinePathTool, LinePathToolState, SelectTool,
    SelectToolState, SelectionRectangle, Tool,
};
use linefollower::trig::HALF_PI_FIX;

#[test]
fn arc_tool_builds_an_arc_from_three_clicks() {
    let mut tool = ArcPathTool::new();
    assert_eq!(tool.state, ArcPathToolState::Start);
    assert!(tool.on_click(1_000_000, -9_000_000).is_none());
    assert_eq!(tool.state, ArcPathToolState::CenterPoint);
    // first arc point one unit to the right of the center: radius one,
    // start angle zero
    assert!(tool.on_click(2_000_000, -9_000_000).is_none());
    assert_eq!(tool.state, ArcPathToolState::FirstArcPoint);
    assert_eq!(tool.r, 1_000_000);
    assert_eq!(tool.theta0, 0);
    // last arc point one unit above the center: a counterclockwise quarter
    let built = tool.on_click(1_000_000, -8_000_000);
    assert_eq!(tool.state, ArcPathToolState::Start);
    match built {
        Some(SubPath::Arc(a)) => {
            assert_eq!(a.x_0, 1_000_000);
            assert_eq!(a.y_0, -9_000_000);
            assert_eq!(a.r, 1_000_000);
            assert_eq!(a.theta_0, 0);
            assert_eq!(a.direction, Direction::Convex);
            // a quarter turn, up to the arctangent approximation
            assert!((a.theta_1 - HALF_PI_FIX).abs() < 3_000, "theta1 {}", a.theta_1);
        },
        other => panic!("expected an arc, got {:?}", other),
    }
}

#[test]
fn arc_tool_direction_toggle_builds_clockwise_arcs() {
    let mut tool = ArcPathTool::new();
    assert!(tool.counterclockwise);
    tool.on_input(false);
    assert!(tool.counterclockwise);
    tool.on_input(true);
    assert!(!tool.counterclockwise);
    tool.on_click(0, 0);
    tool.on_click(2_000_000, 0);
    let built = tool.on_click(0, 2_000_000);
    match built {
        Some(SubPath::Arc(a)) => {
            assert_eq!(a.direction, Direction::Concave);
            assert!(a.theta_1 < a.theta_0);
        },
        other => panic!("expected an arc, got {:?}", other),
    }
}

#[test]
fn arc_tool_rejects_degenerate_clicks() {
    let mut tool = ArcPathTool::new();
    tool.on_click(0, 0);
    // clicking the center again gives radius zero
    tool.on_click(0, 0);
    assert_eq!(tool.r, 0);
    let built = tool.on_click(1_000_000, 0);
    assert!(built.is_none());
    assert_eq!(tool.state, ArcPathToolState::Start);
}

#[test]
fn arc_tool_reset_forgets_clicks() {
    let mut tool = ArcPathTool::new();
    tool.on_click(5, 6);
    tool.reset_state();
    assert_eq!(tool.state, ArcPathToolState::Start);
}

#[test]
fn line_tool_builds_a_line_from_two_clicks() {
    let mut tool = LinePathTool::new();
    assert_eq!(tool.state, LinePathToolState::Start);
    assert!(tool.on_click(1_000_000, 2_000_000).is_none());
    assert_eq!(tool.state, LinePathToolState::OnePoint);
    let built = tool.on_click(4_000_000, 6_000_000);
    assert_eq!(tool.state, LinePathToolState::Start);
    match built {
        Some(SubPath::Line(l)) => {
            assert_eq!((l.x_0, l.y_0), (1_000_000, 2_000_000));
            assert_eq!((l.x_1, l.y_1), (4_000_000, 6_000_000));
            assert_eq!(l.length, 5_000_000);
        },
        other => panic!("expected a line, got {:?}", other),
    }
}

#[test]
fn line_tool_rejects_zero_length_lines() {
    let mut tool = LinePathTool::new();
    tool.on_click(7, 8);
    assert!(tool.on_click(7, 8).is_none());
    assert_eq!(tool.state, LinePathToolState::Start);
}

#[test]
fn free_tool_builds_nothing() {
    let mut tool = FreeTool {};
    assert!(tool.on_click(1, 2).is_none());
    tool.reset_state();
}

#[test]
fn select_tool_spans_a_rectangle() {
    let mut tool = SelectTool::new();
    assert_eq!(tool.state, SelectToolState::Start);
    assert!(tool.on_click(3_000_000, -1_000_000).is_none());
    assert_eq!(tool.state, SelectToolState::OnceClicked);
    let rect = tool.on_click(1_000_000, 2_000_000).unwrap();
    assert_eq!(tool.state, SelectToolState::Start);
    assert_eq!(rect.min_x, 1_000_000);
    assert_eq!(rect.max_x, 3_000_000);
    assert_eq!(rect.min_y, -1_000_000);
    assert_eq!(rect.max_y, 2_000_000);
    assert!(rect.contains(2_000_000, 0));
    assert!(rect.contains(1_000_000, 2_000_000));
    assert!(!rect.contains(0, 0));
}

#[test]
fn selection_rectangle_normalizes_corners() {
    let rect = SelectionRectangle::new(5, 5, -5, -5);
    assert_eq!((rect.min_x, rect.min_y, rect.max_x, rect.max_y), (-5, -5, 5, 5));
    assert!(rect.contains(0, 0));
    assert!(!rect.contains(6, 0));
}

#[test]
fn tool_dispatch_routes_clicks() {
    let mut tool = Tool::new();
    assert_eq!(tool, Tool::Free(FreeTool {}));
    assert!(tool.on_click(1, 2).is_none());
    let mut line = Tool::LinePath(LinePathTool::new());
    assert!(line.on_click(0, 0).is_none());
    let built = line.on_click(3_000_000, 4_000_000);
    assert!(matches!(built, Some(SubPath::Line(_))));
    let mut select = Tool::Select(SelectTool::new());
    assert!(select.on_click(0, 0).is_none());
    assert!(select.on_click(1, 1).is_none());
}
