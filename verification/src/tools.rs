//! Editor tool state machines, reduced to their decisions.
//!
//! Each tool is a small state machine over clicked world points; the
//! surrounding user interface feeds clicks in and draws previews from the
//! returned values.  Every transition is an exact function of the tool
//! state and the click, stated by a spec mirror; a click that would build a
//! degenerate or out-of-range segment leaves the path untouched.

use vstd::prelude::*;
use crate::fixed::{SCALE, abs_int, fabs, fadd, fdist, fmul, fsub, spec_abs, spec_add, spec_dist, spec_mul, spec_sub, tdiv};
use crate::sdf_paths::{ArcPath, COORD_MAX, LinePath, SubPath, THETA_MAX};
use crate::trig::{TWO_PI_FIX, atan2_fix, spec_atan2};

verus! {

/// Progress of the arc tool: waiting for the center, for the first arc
/// point, or for the final arc point.
#[derive(Clone, Copy, Debug, PartialEq, Eq, Structural)]
pub enum ArcPathToolState {
    Start,
    CenterPoint,
    FirstArcPoint,
}

/// Three-click arc construction: center, first arc point, last arc point.
#[derive(Clone, Copy, Debug, PartialEq, Eq, Structural)]
pub struct ArcPathTool {
    pub state: ArcPathToolState,
    pub counterclockwise: bool,
    pub center_x: i64,
    pub center_y: i64,
    pub theta0: i64,
    pub r: i64,
}

/// Angle of the vector `(vx, vy)` normalized into `[0, TWO_PI_FIX]`.
pub open spec fn spec_vector_angle(vx: int, vy: int) -> int {
    let t = spec_atan2(vy, vx);
    if t < 0 {
        spec_add(TWO_PI_FIX as int, t)
    } else {
        t
    }
}

/// The final angle corrected by a full turn so that the arc runs in the
/// tool's chosen direction.
pub open spec fn spec_correct_angle(counterclockwise: bool, theta0: int, theta1: int) -> int {
    if counterclockwise {
        if theta1 < theta0 {
            spec_add(theta1, TWO_PI_FIX as int)
        } else {
            theta1
        }
    } else {
        if theta1 > theta0 {
            spec_sub(theta1, TWO_PI_FIX as int)
        } else {
            theta1
        }
    }
}

impl ArcPathTool {
    /// A fresh tool waiting for the center click, turning counterclockwise.
    pub fn new() -> (r: ArcPathTool)
        ensures
            r.state == ArcPathToolState::Start,
            r.counterclockwise,
            r.center_x == 0,
            r.center_y == 0,
            r.theta0 == 0,
            r.r == 0,
    {
        ArcPathTool {
            state: ArcPathToolState::Start,
            counterclockwise: true,
            center_x: 0,
            center_y: 0,
            theta0: 0,
            r: 0,
        }
    }

    /// Key handling: a pressed toggle key flips the construction direction.
    pub fn on_input(&mut self, toggle_pressed: bool)
        ensures
            final(self).counterclockwise == (if toggle_pressed {
                !old(self).counterclockwise
            } else {
                old(self).counterclockwise
            }),
            final(self).state == old(self).state,
            final(self).center_x == old(self).center_x,
            final(self).center_y == old(self).center_y,
            final(self).theta0 == old(self).theta0,
            final(self).r == old(self).r,
    {
        if toggle_pressed {
            self.counterclockwise = !self.counterclockwise;
        }
    }

    /// Whether the third click, on the current tool state, yields an arc
    /// that can be built: bounded data, a proper angular span, and at least
    /// one micro-unit of arc length.
    pub open spec fn spec_click_arc_ok(self, x: int, y: int) -> bool {
        let theta1 = spec_correct_angle(
            self.counterclockwise,
            self.theta0 as int,
            spec_vector_angle(spec_sub(x, self.center_x as int), spec_sub(y, self.center_y as int)),
        );
        &&& -COORD_MAX <= self.center_x <= COORD_MAX
        &&& -COORD_MAX <= self.center_y <= COORD_MAX
        &&& 1 <= self.r <= COORD_MAX
        &&& -THETA_MAX <= self.theta0 <= THETA_MAX
        &&& -THETA_MAX <= theta1 <= THETA_MAX
        &&& theta1 != self.theta0
        &&& spec_mul(self.r as int, spec_abs(theta1 - self.theta0)) >= 1
    }

    /// The arc the third click builds, when `spec_click_arc_ok` holds.
    pub open spec fn spec_click_arc(self, x: int, y: int) -> (int, int) {
        let theta1 = spec_correct_angle(
            self.counterclockwise,
            self.theta0 as int,
            spec_vector_angle(spec_sub(x, self.center_x as int), spec_sub(y, self.center_y as int)),
        );
        (self.theta0 as int, theta1)
    }

    /// The tool state and built segment one click produces.
    pub open spec fn spec_on_click(self, x: int, y: int) -> (ArcPathTool, Option<SubPath>) {
        match self.state {
            ArcPathToolState::Start => (
                ArcPathTool {
                    state: ArcPathToolState::CenterPoint,
                    center_x: x as i64,
                    center_y: y as i64,
                    ..self
                },
                None,
            ),
            ArcPathToolState::CenterPoint => (
                ArcPathTool {
                    state: ArcPathToolState::FirstArcPoint,
                    theta0: spec_vector_angle(
                        spec_sub(x, self.center_x as int),
                        spec_sub(y, self.center_y as int),
                    ) as i64,
                    r: spec_dist(x, y, self.center_x as int, self.center_y as int) as i64,
                    ..self
                },
                None,
            ),
            ArcPathToolState::FirstArcPoint => {
                let next = ArcPathTool { state: ArcPathToolState::Start, ..self };
                if self.spec_click_arc_ok(x, y) {
                    (
                        next,
                        Some(
                            SubPath::Arc(
                                ArcPath::spec_make_arc(
                                    self.center_x as int,
                                    self.center_y as int,
                                    self.r as int,
                                    self.theta0 as int,
                                    self.spec_click_arc(x, y).1,
                                ),
                            ),
                        ),
                    )
                } else {
                    (next, None)
                }
            },
        }
    }

    /// One click of the arc tool: the first click fixes the center, the
    /// second the first arc point (hence radius and start angle), the third
    /// builds the arc — or nothing, when the arc would be degenerate or out
    /// of range.
    pub fn on_click(&mut self, x: i64, y: i64) -> (r: Option<SubPath>)
        ensures
            ({
                let (s2, r2) = old(self).spec_on_click(x as int, y as int);
                *final(self) == s2 && r == r2
            }),
            old(self).state == ArcPathToolState::Start ==> *final(self) == (ArcPathTool {
                state: ArcPathToolState::CenterPoint,
                center_x: x,
                center_y: y,
                ..*old(self)
            }) && r is None,
            old(self).state == ArcPathToolState::CenterPoint ==> *final(self) == (ArcPathTool {
                state: ArcPathToolState::FirstArcPoint,
                theta0: spec_vector_angle(
                    spec_sub(x as int, old(self).center_x as int),
                    spec_sub(y as int, old(self).center_y as int),
                ) as i64,
                r: spec_dist(
                    x as int,
                    y as int,
                    old(self).center_x as int,
                    old(self).center_y as int,
                ) as i64,
                ..*old(self)
            }) && r is None,
            old(self).state == ArcPathToolState::FirstArcPoint ==> *final(self) == (ArcPathTool {
                state: ArcPathToolState::Start,
                ..*old(self)
            }) && (r is Some <==> old(self).spec_click_arc_ok(x as int, y as int)),
            old(self).state == ArcPathToolState::FirstArcPoint ==> (match r {
                Some(sp) => sp.wf() && (match sp {
                    SubPath::Arc(a) => a.x_0 == old(self).center_x && a.y_0 == old(self).center_y
                        && a.r == old(self).r && a.theta_0 == old(self).theta0 && a.theta_1 == old(
                        self,
                    ).spec_click_arc(x as int, y as int).1,
                    SubPath::Line(_) => false,
                }),
                None => true,
            }),
    {
        match self.state {
            ArcPathToolState::Start => {
                self.state = ArcPathToolState::CenterPoint;
                self.center_x = x;
                self.center_y = y;
                None
            },
            ArcPathToolState::CenterPoint => {
                self.state = ArcPathToolState::FirstArcPoint;
                self.theta0 = vector_angle(fsub(x, self.center_x), fsub(y, self.center_y));
                self.r = fdist(x, y, self.center_x, self.center_y);
                None
            },
            ArcPathToolState::FirstArcPoint => {
                self.state = ArcPathToolState::Start;
                let theta1 = correct_angle(
                    self.counterclockwise,
                    self.theta0,
                    vector_angle(fsub(x, self.center_x), fsub(y, self.center_y)),
                );
                let ok = -COORD_MAX <= self.center_x && self.center_x <= COORD_MAX
                    && -COORD_MAX <= self.center_y && self.center_y <= COORD_MAX && 1 <= self.r
                    && self.r <= COORD_MAX && -THETA_MAX <= self.theta0 && self.theta0 <= THETA_MAX
                    && -THETA_MAX <= theta1 && theta1 <= THETA_MAX && theta1 != self.theta0 && fmul(
                    self.r,
                    fabs(fsub(theta1, self.theta0)),
                ) >= 1;
                if ok {
                    proof {
                        lemma_length_check(self.r as int, self.theta0 as int, theta1 as int);
                    }
                    Some(
                        SubPath::Arc(
                            ArcPath::new(self.center_x, self.center_y, self.r, self.theta0, theta1),
                        ),
                    )
                } else {
                    None
                }
            },
        }
    }

    /// Forgets any clicks made so far.
    pub fn reset_state(&mut self)
        ensures
            *final(self) == (ArcPathTool { state: ArcPathToolState::Start, ..*old(self) }),
    {
        self.state = ArcPathToolState::Start;
    }
}

/// A positive fixed-point arc length means the product of radius and
/// angular span reaches one unit.
proof fn lemma_length_check(r: int, theta0: int, theta1: int)
    requires
        r >= 1,
        -2_000_000_000_000_000 <= theta1 - theta0 <= 2_000_000_000_000_000,
        spec_mul(r, spec_abs(theta1 - theta0)) >= 1,
    ensures
        r * abs_int(theta1 - theta0) >= SCALE,
{
    let a = abs_int(theta1 - theta0);
    assert(spec_abs(theta1 - theta0) == a);
    let p = r * a;
    assert(p >= 0) by (nonlinear_arith)
        requires p == r * a, r >= 1, a >= 0,
    ;
    if p < SCALE as int {
        vstd::arithmetic::div_mod::lemma_basic_div(p, SCALE as int);
        assert(tdiv(p, SCALE as int) == 0);
    }
}

/// Angle of `(vx, vy)` normalized into a single positive turn.
fn vector_angle(vx: i64, vy: i64) -> (r: i64)
    ensures
        r == spec_vector_angle(vx as int, vy as int),
        0 <= r <= TWO_PI_FIX,
{
    let t = atan2_fix(vy, vx);
    if t < 0 {
        fadd(TWO_PI_FIX, t)
    } else {
        t
    }
}

/// Corrects the final angle by a full turn to match the chosen direction.
fn correct_angle(counterclockwise: bool, theta0: i64, theta1: i64) -> (r: i64)
    ensures
        r == spec_correct_angle(counterclockwise, theta0 as int, theta1 as int),
{
    if counterclockwise {
        if theta1 < theta0 {
            fadd(theta1, TWO_PI_FIX)
        } else {
            theta1
        }
    } else {
        if theta1 > theta0 {
            fsub(theta1, TWO_PI_FIX)
        } else {
            theta1
        }
    }
}

/// Progress of the line tool: waiting for the first or the second point.
#[derive(Clone, Copy, Debug, PartialEq, Eq, Structural)]
pub enum LinePathToolState {
    Start,
    OnePoint,
}

/// Two-click line construction.
#[derive(Clone, Copy, Debug, PartialEq, Eq, Structural)]
pub struct LinePathTool {
    pub state: LinePathToolState,
    pub p0_x: i64,
    pub p0_y: i64,
}

impl LinePathTool {
    /// A fresh tool waiting for the first point.
    pub fn new() -> (r: LinePathTool)
        ensures
            r.state == LinePathToolState::Start,
            r.p0_x == 0,
            r.p0_y == 0,
    {
        LinePathTool { state: LinePathToolState::Start, p0_x: 0, p0_y: 0 }
    }

    /// Whether the second click, on the current tool state, yields a line
    /// that can be built: bounded distinct endpoints.
    pub open spec fn spec_click_line_ok(self, x: int, y: int) -> bool {
        &&& -COORD_MAX <= self.p0_x <= COORD_MAX
        &&& -COORD_MAX <= self.p0_y <= COORD_MAX
        &&& -COORD_MAX <= x <= COORD_MAX
        &&& -COORD_MAX <= y <= COORD_MAX
        &&& !(self.p0_x == x && self.p0_y == y)
    }

    /// The tool state and built segment one click produces.
    pub open spec fn spec_on_click(self, x: int, y: int) -> (LinePathTool, Option<SubPath>) {
        match self.state {
            LinePathToolState::Start => (
                LinePathTool { state: LinePathToolState::OnePoint, p0_x: x as i64, p0_y: y as i64 },
                None,
            ),
            LinePathToolState::OnePoint => {
                let next = LinePathTool { state: LinePathToolState::Start, ..self };
                if self.spec_click_line_ok(x, y) {
                    (
                        next,
                        Some(
                            SubPath::Line(
                                LinePath::spec_make_line(self.p0_x as int, self.p0_y as int, x, y),
                            ),
                        ),
                    )
                } else {
                    (next, None)
                }
            },
        }
    }

    /// One click of the line tool: the first click fixes the start point,
    /// the second builds the segment — or nothing, when the endpoints
    /// coincide or lie out of range.
    pub fn on_click(&mut self, x: i64, y: i64) -> (r: Option<SubPath>)
        ensures
            ({
                let (s2, r2) = old(self).spec_on_click(x as int, y as int);
                *final(self) == s2 && r == r2
            }),
            old(self).state == LinePathToolState::Start ==> *final(self) == (LinePathTool {
                state: LinePathToolState::OnePoint,
                p0_x: x,
                p0_y: y,
            }) && r is None,
            old(self).state == LinePathToolState::OnePoint ==> *final(self) == (LinePathTool {
                state: LinePathToolState::Start,
                ..*old(self)
            }) && (r is Some <==> old(self).spec_click_line_ok(x as int, y as int)),
            old(self).state == LinePathToolState::OnePoint ==> (match r {
                Some(sp) => sp.wf() && (match sp {
                    SubPath::Line(l) => l.x_0 == old(self).p0_x && l.y_0 == old(self).p0_y
                        && l.x_1 == x && l.y_1 == y,
                    SubPath::Arc(_) => false,
                }),
                None => true,
            }),
    {
        match self.state {
            LinePathToolState::Start => {
                self.state = LinePathToolState::OnePoint;
                self.p0_x = x;
                self.p0_y = y;
                None
            },
            LinePathToolState::OnePoint => {
                self.state = LinePathToolState::Start;
                let ok = -COORD_MAX <= self.p0_x && self.p0_x <= COORD_MAX && -COORD_MAX
                    <= self.p0_y && self.p0_y <= COORD_MAX && -COORD_MAX <= x && x <= COORD_MAX
                    && -COORD_MAX <= y && y <= COORD_MAX && !(self.p0_x == x && self.p0_y == y);
                if ok {
                    Some(SubPath::Line(LinePath::new(self.p0_x, self.p0_y, x, y)))
                } else {
                    None
                }
            },
        }
    }

    /// Forgets any clicks made so far.
    pub fn reset_state(&mut self)
        ensures
            *final(self) == (LinePathTool { state: LinePathToolState::Start, ..*old(self) }),
    {
        self.state = LinePathToolState::Start;
    }
}

/// The idle tool: clicks build nothing.
#[derive(Clone, Copy, Debug, PartialEq, Eq, Structural)]
pub struct FreeTool {}

impl FreeTool {
    /// Clicks of the idle tool never build a segment.
    pub fn on_click(&mut self, x: i64, y: i64) -> (r: Option<SubPath>)
        ensures
            r is None,
    {
        let _ = (x, y);
        None
    }

    /// The idle tool holds no state to forget.
    pub fn reset_state(&mut self)
        ensures
            *final(self) == *old(self),
    {
    }
}

/// Progress of the selection tool: waiting for the first or the second
/// rectangle corner.
#[derive(Clone, Copy, Debug, PartialEq, Eq, Structural)]
pub enum SelectToolState {
    Start,
    OnceClicked,
}

/// Axis-aligned selection rectangle between two clicked corners.
#[derive(Clone, Copy, Debug, PartialEq, Eq, Structural)]
pub struct SelectionRectangle {
    pub min_x: i64,
    pub min_y: i64,
    pub max_x: i64,
    pub max_y: i64,
}

impl SelectionRectangle {
    /// The rectangle spanned by two corner points, in any corner order.
    pub fn new(p0_x: i64, p0_y: i64, p1_x: i64, p1_y: i64) -> (r: SelectionRectangle)
        ensures
            r.min_x == if p0_x <= p1_x { p0_x } else { p1_x },
            r.max_x == if p0_x <= p1_x { p1_x } else { p0_x },
            r.min_y == if p0_y <= p1_y { p0_y } else { p1_y },
            r.max_y == if p0_y <= p1_y { p1_y } else { p0_y },
    {
        SelectionRectangle {
            min_x: if p0_x <= p1_x { p0_x } else { p1_x },
            max_x: if p0_x <= p1_x { p1_x } else { p0_x },
            min_y: if p0_y <= p1_y { p0_y } else { p1_y },
            max_y: if p0_y <= p1_y { p1_y } else { p0_y },
        }
    }

    /// Whether the rectangle contains `(x, y)`, borders included.
    pub fn contains(&self, x: i64, y: i64) -> (r: bool)
        ensures
            r == (self.min_x <= x <= self.max_x && self.min_y <= y <= self.max_y),
    {
        self.min_x <= x && x <= self.max_x && self.min_y <= y && y <= self.max_y
    }
}

/// Rectangle selection: the first click fixes one corner, the second
/// finishes the rectangle.
#[derive(Clone, Copy, Debug, PartialEq, Eq, Structural)]
pub struct SelectTool {
    pub state: SelectToolState,
    pub p0_x: i64,
    pub p0_y: i64,
}

impl SelectTool {
    /// A fresh selection tool waiting for the first corner.
    pub fn new() -> (r: SelectTool)
        ensures
            r.state == SelectToolState::Start,
            r.p0_x == 0,
            r.p0_y == 0,
    {
        SelectTool { state: SelectToolState::Start, p0_x: 0, p0_y: 0 }
    }

    /// The tool state and finished rectangle one click produces.
    pub open spec fn spec_on_click(self, x: int, y: int) -> (SelectTool, Option<SelectionRectangle>) {
        match self.state {
            SelectToolState::Start => (
                SelectTool { state: SelectToolState::OnceClicked, p0_x: x as i64, p0_y: y as i64 },
                None,
            ),
            SelectToolState::OnceClicked => (
                SelectTool { state: SelectToolState::Start, ..self },
                Some(
                    SelectionRectangle {
                        min_x: if self.p0_x as int <= x { self.p0_x } else { x as i64 },
                        max_x: if self.p0_x as int <= x { x as i64 } else { self.p0_x },
                        min_y: if self.p0_y as int <= y { self.p0_y } else { y as i64 },
                        max_y: if self.p0_y as int <= y { y as i64 } else { self.p0_y },
                    },
                ),
            ),
        }
    }

    /// One click of the selection tool: the first click fixes a corner,
    /// the second returns the finished rectangle.
    pub fn on_click(&mut self, x: i64, y: i64) -> (r: Option<SelectionRectangle>)
        ensures
            ({
                let (s2, r2) = old(self).spec_on_click(x as int, y as int);
                *final(self) == s2 && r == r2
            }),
            old(self).state == SelectToolState::Start ==> *final(self) == (SelectTool {
                state: SelectToolState::OnceClicked,
                p0_x: x,
                p0_y: y,
            }) && r is None,
            old(self).state == SelectToolState::OnceClicked ==> *final(self) == (SelectTool {
                state: SelectToolState::Start,
                ..*old(self)
            }) && (match r {
                Some(rect) => rect.min_x == (if old(self).p0_x <= x {
                    old(self).p0_x
                } else {
                    x
                }) && rect.max_x == (if old(self).p0_x <= x {
                    x
                } else {
                    old(self).p0_x
                }) && rect.min_y == (if old(self).p0_y <= y {
                    old(self).p0_y
                } else {
                    y
                }) && rect.max_y == (if old(self).p0_y <= y {
                    y
                } else {
                    old(self).p0_y
                }),
                None => false,
            }),
    {
        match self.state {
            SelectToolState::Start => {
                self.state = SelectToolState::OnceClicked;
                self.p0_x = x;
                self.p0_y = y;
                None
            },
            SelectToolState::OnceClicked => {
                self.state = SelectToolState::Start;
                Some(SelectionRectangle::new(self.p0_x, self.p0_y, x, y))
            },
        }
    }
}


/// The editor's active tool.
#[derive(Clone, Copy, Debug, PartialEq, Eq, Structural)]
pub enum Tool {
    Free(FreeTool),
    ArcPath(ArcPathTool),
    LinePath(LinePathTool),
    Select(SelectTool),
}

impl Tool {
    /// The editor starts with the idle tool.
    pub fn new() -> (r: Tool)
        ensures
            r == Tool::Free(FreeTool {  }),
    {
        Tool::Free(FreeTool {  })
    }

    /// Dispatches a click to the active tool; only the segment-building
    /// tools can return a new segment.
    pub fn on_click(&mut self, x: i64, y: i64) -> (r: Option<SubPath>)
        ensures
            ({
                match *old(self) {
                    Tool::Free(_) => *final(self) == *old(self) && r is None,
                    Tool::ArcPath(t0) => {
                        let (s2, r2) = t0.spec_on_click(x as int, y as int);
                        *final(self) == Tool::ArcPath(s2) && r == r2
                    },
                    Tool::LinePath(t0) => {
                        let (s2, r2) = t0.spec_on_click(x as int, y as int);
                        *final(self) == Tool::LinePath(s2) && r == r2
                    },
                    Tool::Select(t0) => {
                        let (s2, _) = t0.spec_on_click(x as int, y as int);
                        *final(self) == Tool::Select(s2) && r is None
                    },
                }
            }),
    {
        match self {
            Tool::Free(_) => None,
            Tool::ArcPath(tool) => tool.on_click(x, y),
            Tool::LinePath(tool) => tool.on_click(x, y),
            Tool::Select(tool) => {
                let _ = tool.on_click(x, y);
                None
            },
        }
    }
}

} // verus!
