//! Track geometry: segments, closed paths, signed distances.
//!
//! Scalars are fixed-point micro-units: `1_000_000` is one world unit.

use linefollower::fixed::{FIX_MAX, SCALE};
use linefollower::math_utils::{cross_product, distance, dot_product};
use linefollower::sdf_paths::{
    ArcPath, ClosedPath, LinePath, PathError, SDF, SubPath, is_valid_closed_path,
    predefined_closed_path_sdf, sample_points,
};
use linefollower::trig::{HALF_PI_FIX, PI_FIX, atan2_fix, cos_fix, sin_fix};

fn units(v: f64) -> i64 {
    (v * SCALE as f64).round() as i64
}

fn predefined_subpaths() -> Vec<SubPath> {
    vec![
        SubPath::Line(LinePath::new(units(0.0), units(-4.0), units(8.0), units(-4.0))),
        SubPath::Line(LinePath::new(units(8.0), units(-4.0), units(8.0), units(-9.0))),
        SubPath::Arc(ArcPath::new(units(7.0), units(-9.0), units(1.0), 0, -HALF_PI_FIX)),
        SubPath::Line(LinePath::new(units(7.0), units(-10.0), units(3.0), units(-10.0))),
        SubPath::Arc(ArcPath::new(
            units(3.0),
            units(-11.0),
            units(1.0),
            HALF_PI_FIX,
            PI_FIX + HALF_PI_FIX,
        )),
        SubPath::Line(LinePath::new(units(3.0), units(-12.0), units(8.0), units(-12.0))),
        SubPath::Arc(ArcPath::new(units(8.0), units(-10.0), units(2.0), -HALF_PI_FIX, 0)),
        SubPath::Line(LinePath::new(units(10.0), units(-10.0), units(10.0), units(-2.0))),
        SubPath::Arc(ArcPath::new(units(8.0), units(-2.0), units(2.0), 0, HALF_PI_FIX)),
        SubPath::Line(LinePath::new(units(8.0), units(0.0), units(0.0), units(0.0))),
        SubPath::Arc(ArcPath::new(
            units(0.0),
            units(-2.0),
            units(2.0),
            HALF_PI_FIX,
            PI_FIX + HALF_PI_FIX,
        )),
    ]
}

/// A two-segment loop: the upper unit half-circle around (1, 0) closed by
/// the segment from (0, 0) to (2, 0).
fn two_segment_track() -> (LinePath, ArcPath, ClosedPath) {
    let line = LinePath::new(0, 0, units(2.0), 0);
    let arc = ArcPath::new(units(1.0), 0, units(1.0), 0, PI_FIX);
    let path = ClosedPath::new(vec![SubPath::Line(line), SubPath::Arc(arc)]).unwrap();
    (line, arc, path)
}

#[test]
fn test_predefined_path_validity() {
    let path = predefined_subpaths();
    assert!(is_valid_closed_path(&path));
}

#[test]
fn predefined_path_builds() {
    let path = predefined_closed_path_sdf();
    assert_eq!(path.length, 55_278_759);
    assert_eq!(path.first_point(), (0, units(-4.0)));
}

// Closed-loop property: the loop starts at its first segment's first point
// and returns there after one full length.
#[test]
fn point_at_wraps_around_the_loop() {
    let path = predefined_closed_path_sdf();
    assert_eq!(path.point_at(0), path.first_point());
    assert_eq!(path.point_at(path.length), path.point_at(0));
    // a whole loop plus a quarter lands where the bare quarter does
    let quarter = path.length / 4;
    assert_eq!(path.point_at(path.length + quarter), path.point_at(quarter));
}

#[test]
fn point_at_segment_boundary() {
    let path = predefined_closed_path_sdf();
    // the third segment starts at arc length 13: the corner (8, -9)
    assert_eq!(path.point_at(units(13.0)), (units(8.0), units(-9.0)));
}

// Unit-tangent property, checked numerically on both segment kinds.
#[test]
fn tangents_have_unit_norm() {
    let (line, arc, _) = two_segment_track();
    let lt = line.tangent_at(units(1.0));
    assert_eq!(lt, (SCALE, 0));
    assert_eq!(arc.tangent_at(0), (0, SCALE));
    assert_eq!(arc.tangent_at(arc.length() / 2), (-SCALE, 0));
    let steps = 16i64;
    for k in 0..=steps {
        let d = arc.length() * k / steps;
        let (tx, ty) = arc.tangent_at(d);
        let norm = ((tx as f64).powi(2) + (ty as f64).powi(2)).sqrt() / SCALE as f64;
        assert!((norm - 1.0).abs() < 1e-3, "norm {} at d {}", norm, d);
    }
}

// Signed distance of a line: a point left of the direction of travel gets
// a positive distance.
#[test]
fn line_signed_distance_values() {
    let line = LinePath::new(0, 0, units(10.0), 0);
    assert_eq!(line.sdf_value(units(5.0), units(2.0)), units(2.0));
    assert_eq!(line.sdf_value(units(5.0), units(-2.0)), units(-2.0));
    // projection falls before the segment: magnitude is the distance to the
    // nearer endpoint, the sign comes from the perpendicular formula (a
    // zero offset counts as the negative side)
    let sd = line.sdf_value(units(-1.0), 0);
    assert_eq!(sd.abs(), units(1.0));
    assert_eq!(sd, units(-1.0));
}

#[test]
fn arc_scenario() {
    let arc = ArcPath::new(0, 0, units(1.0), 0, HALF_PI_FIX);
    assert_eq!(arc.point_at(0), (units(1.0), 0));
    let (ex, ey) = arc.point_at(arc.length());
    assert!((ex - 0).abs() <= 100, "end x {}", ex);
    assert!((ey - units(1.0)).abs() <= 100, "end y {}", ey);
    assert_eq!(arc.sdf(units(2.0), 0), Some(units(1.0)));
    // outside the angular sector the arc does not claim the point
    assert_eq!(arc.sdf(units(-2.0), units(-2.0)), None);
}

// Track signed distance is the per-segment value of smallest magnitude.
#[test]
fn track_sdf_is_minimum_by_absolute_value() {
    let (line, arc, path) = two_segment_track();
    let probes = [
        (units(1.0), units(-1.0)),
        (units(1.0), units(0.5)),
        (units(3.0), 0),
        (units(1.0), units(1.5)),
    ];
    for &(x, y) in probes.iter() {
        let got = path.sdf(x, y).unwrap();
        let mut candidates = Vec::new();
        if let Some(v) = arc.sdf(x, y) {
            candidates.push(v);
        }
        candidates.push(line.sdf_value(x, y));
        let best = candidates.iter().copied().min_by_key(|v| v.abs()).unwrap();
        assert_eq!(got.abs(), best.abs(), "probe ({}, {})", x, y);
        assert!(candidates.contains(&got));
    }
    // spot values
    assert_eq!(path.sdf(units(1.0), units(-1.0)), Some(units(-1.0)));
    assert_eq!(path.sdf(units(1.0), units(1.5)), Some(units(0.5)));
}

// A probe equidistant from both segments: either segment's value is a
// correct answer; the tie policy is unspecified.
#[test]
fn track_sdf_tie_gives_one_of_the_candidates() {
    let (line, arc, path) = two_segment_track();
    // (1, 0.5) is half a unit above the line and half a unit inside the arc
    let got = path.sdf(units(1.0), units(0.5)).unwrap();
    let from_line = line.sdf_value(units(1.0), units(0.5));
    let from_arc = arc.sdf(units(1.0), units(0.5)).unwrap();
    assert!(got == from_line || got == from_arc);
    assert_eq!(got.abs(), units(0.5));
}

#[test]
fn projection_tangent_follows_closest_segment() {
    let (line, _, path) = two_segment_track();
    // below the line, the line is closest: its constant tangent comes back
    assert_eq!(path.point_projection_tangent(units(1.0), units(-0.5)), line.tangent_at(0));
    // far above the arc, the arc is closest: tangent roughly points left
    let (tx, _) = path.point_projection_tangent(units(1.0), units(2.0));
    assert!(tx < -900_000, "tx {}", tx);
}

#[test]
fn closed_path_rejects_too_few_segments() {
    let line = LinePath::new(0, 0, units(2.0), 0);
    let r = ClosedPath::new(vec![SubPath::Line(line)]);
    assert_eq!(r.unwrap_err(), PathError::TooFewSubpaths);
}

#[test]
fn closed_path_rejects_open_chains() {
    let a = LinePath::new(0, 0, units(2.0), 0);
    let b = LinePath::new(units(2.0), 0, units(2.0), units(2.0));
    let r = ClosedPath::new(vec![SubPath::Line(a), SubPath::Line(b)]);
    assert_eq!(r.unwrap_err(), PathError::NotClosed);
}

#[test]
fn closed_path_rejects_overlong_loops() {
    // a degenerate up-and-down chain whose summed length leaves the
    // fixed-point range
    let up = LinePath::new(0, -1_000_000_000_000, 0, 1_000_000_000_000);
    let down = LinePath::new(0, 1_000_000_000_000, 0, -1_000_000_000_000);
    let mut subpaths = Vec::new();
    let mut total: i128 = 0;
    while total <= FIX_MAX as i128 {
        subpaths.push(SubPath::Line(up));
        subpaths.push(SubPath::Line(down));
        total += 2 * 2_000_000_000_000i128;
    }
    let r = ClosedPath::new(subpaths);
    assert_eq!(r.unwrap_err(), PathError::TooLong);
}

#[test]
fn validity_check_needs_closure() {
    let a = LinePath::new(0, 0, units(2.0), 0);
    let b = LinePath::new(units(2.0), 0, units(4.0), 0);
    assert!(!is_valid_closed_path(&vec![SubPath::Line(a), SubPath::Line(b)]));
    let back = LinePath::new(units(2.0), 0, 0, 0);
    assert!(is_valid_closed_path(&vec![SubPath::Line(a), SubPath::Line(back)]));
    assert!(!is_valid_closed_path(&vec![SubPath::Line(a)]));
}

#[test]
fn vector_helpers_compute_exact_values() {
    // dot and cross rescale to micro-units: (3, 4) . (2, 0) = 6
    assert_eq!(dot_product(units(3.0), units(4.0), units(2.0), 0), units(6.0));
    assert_eq!(cross_product(units(3.0), units(4.0), units(2.0), 0), units(-8.0));
    assert_eq!(distance(0, 0, units(3.0), units(4.0)), units(5.0));
    assert_eq!(distance(units(1.0), units(1.0), units(1.0), units(1.0)), 0);
}

#[test]
fn trig_matches_reference_values() {
    assert_eq!(sin_fix(0), 0);
    assert_eq!(cos_fix(0), SCALE);
    assert_eq!(sin_fix(1_000_000), 841_470);
    assert_eq!(cos_fix(1_000_000), 540_303);
    assert_eq!(atan2_fix(1_000_000, 1_000_000), 785_398);
    for k in -20..20i64 {
        let a = k * 500_000;
        let s = sin_fix(a) as f64 / SCALE as f64;
        let c = cos_fix(a) as f64 / SCALE as f64;
        let true_s = (a as f64 / SCALE as f64).sin();
        let true_c = (a as f64 / SCALE as f64).cos();
        assert!((s - true_s).abs() < 1e-4);
        assert!((c - true_c).abs() < 1e-4);
    }
}

#[test]
fn sampling_walks_the_loop() {
    let path = predefined_closed_path_sdf();
    let pts = path.sample_points_num(8);
    assert_eq!(pts.len(), 9);
    assert_eq!(pts[0], path.first_point());
    // every sample sits on the track: its signed distance is tiny
    for &(x, y) in pts.iter() {
        let sd = path.sdf(x, y).unwrap();
        assert!(sd.abs() <= 1_000, "sample ({}, {}) is {} off the track", x, y, sd);
    }
    let tangents = path.sample_tangents_num(8);
    assert_eq!(tangents.len(), 9);
    for &(tx, ty) in tangents.iter() {
        let norm = ((tx as f64).powi(2) + (ty as f64).powi(2)).sqrt() / SCALE as f64;
        assert!((norm - 1.0).abs() < 1e-3);
    }
    // fixed-step sampling: one point for every whole step that fits
    let step = path.length / 10;
    let walked = sample_points(&path, step);
    assert_eq!(walked.len() as i64, path.length / step);
    assert_eq!(walked[0], path.point_at(step));
}

// Clockwise arcs claim only their own sector: the reference track's first
// corner arc must not claim a point at an angular position outside it.
#[test]
fn clockwise_arc_respects_its_sector() {
    let arc = ArcPath::new(units(7.0), units(-9.0), units(1.0), 0, -HALF_PI_FIX);
    // (8, -8) sits at a quarter turn counterclockwise from the start angle
    assert_eq!(arc.sdf(units(8.0), units(-8.0)), None);
    // the mid-sector point outside the circle is claimed, sign flipped
    let sd = arc.sdf(units(8.0), units(-10.0)).unwrap();
    assert!(sd < 0, "outside a clockwise arc must be negative, got {}", sd);
    // near that corner the track's distance comes from the adjacent line
    let path = predefined_closed_path_sdf();
    assert_eq!(path.sdf(units(7.5), units(-8.5)), Some(units(-0.5)));
}

// Sectors wider than a half turn: the claim test switches to the union of
// the two half-sector conditions.
#[test]
fn reflex_arcs_claim_their_whole_sector() {
    // counterclockwise three-quarter turn from angle 0
    let ccw = ArcPath::new(0, 0, units(1.0), 0, PI_FIX + HALF_PI_FIX);
    // mid-sector point at a half turn is claimed...
    assert!(ccw.sdf(units(-2.0), 0).is_some());
    // ...while the complementary quarter is not
    assert_eq!(ccw.sdf(707_107, -707_107), None);
    // the mirrored clockwise arc behaves the same way
    let cw = ArcPath::new(0, 0, units(1.0), PI_FIX + HALF_PI_FIX, 0);
    assert!(cw.sdf(units(-2.0), 0).is_some());
    assert_eq!(cw.sdf(707_107, -707_107), None);
}
