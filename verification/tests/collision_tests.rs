//! Narrow-phase contact generation: edge clipping, circle pairs, and the
//! separating-axis test for polygon pairs.

use starframe::collider::Collider;
use starframe::fixed::SCALE;
use starframe::rotor::{Pose, Rotor2};
use starframe::shape_shape::{clip_edge, intersection_check, ContactResult, Edge, EdgeClipResult};
use starframe::vec2::{UnitVec2, Vec2};

fn fx(v: f64) -> i64 {
    (v * SCALE as f64).round() as i64
}

fn to_f(v: i64) -> f64 {
    v as f64 / SCALE as f64
}

fn identity_pose_at(x: f64, y: f64) -> Pose {
    Pose::new(Vec2::new(fx(x), fx(y)), Rotor2::identity())
}

fn rotor_deg(deg: f64) -> Rotor2 {
    let rad = deg.to_radians();
    Rotor2::from_raw(fx(rad.cos()), fx(rad.sin()))
}

use std::f64::consts::PI;

// cases here where exactly the bound value is expected
#[test]
fn clip_various_edges() {
    // intersection
    match clip_edge(
        Edge {
            start: Vec2::new(fx(1.0), fx(1.0)),
            dir: UnitVec2::unit_x().v,
            length: fx(2.0),
        },
        Edge {
            start: Vec2::new(fx(1.0), fx(0.0)),
            dir: UnitVec2::new_normalize(Vec2::new(fx(1.0), fx(1.0))).v,
            length: fx(2.0),
        },
    ) {
        EdgeClipResult::Intersects => (),
        _ => panic!("Didn't intersect"),
    }
    // miss that starts at 0
    match clip_edge(
        Edge {
            start: Vec2::new(fx(1.0), fx(1.0)),
            dir: UnitVec2::unit_x().v,
            length: fx(2.0),
        },
        Edge {
            start: Vec2::new(fx(2.0), fx(0.0)),
            dir: Vec2::new(fx((PI / 6.0).cos()), fx((PI / 6.0).sin())),
            length: fx(2.0),
        },
    ) {
        EdgeClipResult::Passes { enters, exits } => {
            assert_eq!(enters, 0);
            assert!((to_f(exits) - 1.0 / (PI / 6.0).cos()).abs() < 0.001);
        }
        _ => panic!("Intersected but shouldn't have"),
    }
    // miss that starts before 0 but ends at length
    // and also starts at the end of the other one
    match clip_edge(
        Edge {
            start: Vec2::new(fx(1.0), fx(1.0)),
            dir: UnitVec2::unit_x().v,
            length: fx(2.0),
        },
        Edge {
            start: Vec2::new(fx(4.0), fx(0.0)),
            dir: Vec2::new(
                fx((7.0 * PI / 8.0).cos()),
                fx((7.0 * PI / 8.0).sin()),
            ),
            length: fx(2.0),
        },
    ) {
        EdgeClipResult::Passes { enters, exits } => {
            assert!((to_f(enters) - 1.0 / (PI / 8.0).cos()).abs() < 0.001);
            assert_eq!(exits, fx(2.0));
        }
        _ => panic!("Intersected but shouldn't have"),
    }
}

/// Two circles with centres at distance exactly `r1 + r2` report `Zero`.
#[test]
fn touching_circles_report_zero() {
    let c1 = Collider::new_circle(fx(1.0));
    let c2 = Collider::new_circle(fx(1.0));
    let res = intersection_check(
        [identity_pose_at(0.0, 0.0), identity_pose_at(2.0, 0.0)],
        [c1.shape, c2.shape],
    );
    assert!(res.is_zero());
    // the smallest nudge inward produces a contact
    let res = intersection_check(
        [identity_pose_at(0.0, 0.0), Pose::new(Vec2::new(fx(2.0) - 1, 0), Rotor2::identity())],
        [c1.shape, c2.shape],
    );
    assert!(!res.is_zero());
}

/// An overlapping circle pair: the normal is the centre-to-centre x axis and
/// the offsets sit on each circle's rim, in each body's local frame.
#[test]
fn circle_pair_contact_geometry() {
    let c1 = Collider::new_circle(fx(1.0));
    let c2 = Collider::new_circle(fx(1.0));
    let res = intersection_check(
        [identity_pose_at(0.0, 0.0), identity_pose_at(1.5, 0.0)],
        [c1.shape, c2.shape],
    );
    match res {
        ContactResult::One(c) => {
            assert!((to_f(c.normal.v.x) - 1.0).abs() < 1e-5);
            assert!(to_f(c.normal.v.y).abs() < 1e-5);
            assert!((to_f(c.offsets[0].x) - 1.0).abs() < 1e-5);
            assert!((to_f(c.offsets[1].x) + 1.0).abs() < 1e-5);
        }
        _ => panic!("expected one contact"),
    }
}

/// Two rectangles touching edge-to-edge with zero overlap report `Zero`;
/// with a millionth of a unit of overlap they report two contacts along the
/// overlap segment.
#[test]
fn rects_edge_to_edge() {
    let r1 = Collider::new_rect(fx(2.0), fx(2.0));
    let r2 = Collider::new_rect(fx(2.0), fx(2.0));
    // exactly touching: the face gap is zero
    let res = intersection_check(
        [identity_pose_at(0.0, 0.0), identity_pose_at(2.0, 0.0)],
        [r1.shape, r2.shape],
    );
    assert!(res.is_zero());
    // a millionth of a unit of overlap: one raw step at this scale
    let res = intersection_check(
        [identity_pose_at(0.0, 0.0), Pose::new(Vec2::new(fx(2.0) - 1000, 0), Rotor2::identity())],
        [r1.shape, r2.shape],
    );
    match res {
        ContactResult::Two(c1, c2) => {
            // both contacts lie on the shared face at x = 1
            assert!((to_f(c1.offsets[0].x) - 1.0).abs() < 1e-3);
            assert!((to_f(c2.offsets[0].x) - 1.0).abs() < 1e-3);
        }
        _ => panic!("expected two contacts"),
    }
}

/// A capsule lying along a rectangle's face produces two contacts whose
/// points project onto that face at the capsule's segment ends.
#[test]
fn capsule_spanning_rect_face() {
    let rect = Collider::new_rect(fx(2.0), fx(2.0));
    // a capsule of half length 0.75 and radius 0.25, upright beside the
    // rect's x face: rotated a quarter turn so its segment runs along y
    let cap = Collider::new_capsule(fx(1.5), fx(0.25));
    let cap_pose = Pose::new(Vec2::new(fx(1.15), fx(0.0)), rotor_deg(90.0));
    let res = intersection_check(
        [identity_pose_at(0.0, 0.0), cap_pose],
        [rect.shape, cap.shape],
    );
    match res {
        ContactResult::Two(c1, c2) => {
            let mut ys = [to_f(c1.offsets[0].y), to_f(c2.offsets[0].y)];
            ys.sort_by(|a, b| a.partial_cmp(b).unwrap());
            assert!((ys[0] + 0.75).abs() < 1e-3, "low contact at {}", ys[0]);
            assert!((ys[1] - 0.75).abs() < 1e-3, "high contact at {}", ys[1]);
            // the contacts press along the rect's x face
            assert!((to_f(c1.normal.v.x) - 1.0).abs() < 1e-3);
        }
        _ => panic!("expected two contacts"),
    }
}

/// A circle against a rectangle face: one contact, normal along the face.
#[test]
fn circle_against_rect_face() {
    let circ = Collider::new_circle(fx(0.5));
    let rect = Collider::new_rect(fx(2.0), fx(2.0));
    let res = intersection_check(
        [identity_pose_at(0.0, 1.4), identity_pose_at(0.0, 0.0)],
        [circ.shape, rect.shape],
    );
    match res {
        ContactResult::One(c) => {
            // normal away from the circle: downward into the rect
            assert!((to_f(c.normal.v.y) + 1.0).abs() < 1e-5);
        }
        _ => panic!("expected one contact"),
    }
    // far away: no contact
    let res = intersection_check(
        [identity_pose_at(0.0, 3.0), identity_pose_at(0.0, 0.0)],
        [circ.shape, rect.shape],
    );
    assert!(res.is_zero());
}

/// The contact iterator yields exactly the contacts in order.
#[test]
fn contact_iterator_counts() {
    let c1 = Collider::new_circle(fx(1.0));
    let c2 = Collider::new_circle(fx(1.0));
    let res = intersection_check(
        [identity_pose_at(0.0, 0.0), identity_pose_at(1.0, 0.0)],
        [c1.shape, c2.shape],
    );
    let mut count = 0;
    let mut iter = res.iter();
    while let Some(_c) = iter.next() {
        count += 1;
    }
    assert_eq!(count, 1);
    assert!(!res.is_zero());
}
