//! Ray and point queries against colliders.

use starframe::collider::Collider;
use starframe::fixed::SCALE;
use starframe::query::{point_collider_bool, ray_circle, ray_collider, Ray};
use starframe::rotor::{Pose, Rotor2};
use starframe::vec2::{UnitVec2, Vec2};

fn fx(v: f64) -> i64 {
    (v * SCALE as f64).round() as i64
}

fn to_f(v: i64) -> f64 {
    v as f64 / SCALE as f64
}

fn rotor_deg(deg: f64) -> Rotor2 {
    let rad = deg.to_radians();
    Rotor2::from_raw(fx(rad.cos()), fx(rad.sin()))
}

fn dir(x: f64, y: f64) -> UnitVec2 {
    UnitVec2::new_normalize(Vec2::new(fx(x), fx(y)))
}

fn assert_t_eq(t: i64, expected: f64) {
    assert!(
        (to_f(t) - expected).abs() < 0.0001,
        "hit the wrong thing at t {} (expected {})",
        to_f(t),
        expected,
    );
}

// This is hard to test thoroughly, just a quick smoke test to make sure
// an obvious hit hits and an obvious miss misses.
// Other shapes' tests depend on this so other tests will confirm this works
#[test]
fn ray_circle_() {
    assert!(ray_circle(
        Ray { start: Vec2::zero(), dir: UnitVec2::unit_y() },
        Vec2::new(fx(0.0), fx(2.0)),
        fx(1.0),
    )
    .is_some());
    assert!(ray_circle(
        Ray { start: Vec2::zero(), dir: dir(1.0, 1.0) },
        Vec2::new(fx(0.0), fx(2.0)),
        fx(1.0),
    )
    .is_none());
}

#[test]
fn ray_capsule() {
    // whatever pose to make sure poses are being applied
    let pose = Pose::new(Vec2::new(fx(5.0), fx(3.5)), rotor_deg(65.0));
    let cap = Collider::new_capsule(fx(4.0), fx(1.0));

    let should_hit = |ray: Ray, expected_t: f64| {
        // transform the ray with the same pose to keep calculations easy
        let hit = ray_collider(ray.transformed(pose), pose, cap).unwrap();
        assert_t_eq(hit, expected_t);
    };
    let should_hit_circle = |ray: Ray, circ_pos: Vec2| {
        let cap_hit = ray_collider(ray.transformed(pose), pose, cap);
        let circ_hit = ray_circle(ray, circ_pos, fx(1.0));
        match (cap_hit, circ_hit) {
            (Some(b), Some(c)) => assert!((to_f(b) - to_f(c)).abs() < 0.0001),
            (None, None) => {}
            _ => panic!("one of circle / cap missed but other didn't"),
        }
    };
    let should_miss =
        |ray: Ray| assert_eq!(ray_collider(ray.transformed(pose), pose, cap), None);

    let mut ray = Ray { start: Vec2::new(fx(0.0), fx(-2.0)), dir: UnitVec2::unit_y() };
    should_hit(ray, 1.0);
    ray.dir = dir(1.0, 1.0);
    should_hit(ray, 2f64.sqrt());
    ray.dir = dir(2.1, 1.0);
    should_hit_circle(ray, Vec2::new(fx(2.0), fx(0.0)));
    ray.dir = UnitVec2::unit_x();
    should_miss(ray);
    ray.start.x = fx(-3.0);
    ray.dir = dir(1.0, 1.0);
    should_hit_circle(ray, Vec2::new(fx(-2.0), fx(0.0)));
    ray.dir = dir(2.0, 1.0);
    should_hit(ray, 5f64.sqrt());
    ray.start.x = fx(-2.5);
    ray.dir = UnitVec2::unit_y();
    should_hit_circle(ray, Vec2::new(fx(-2.0), fx(0.0)));
    ray.start = Vec2::new(fx(-500.0), fx(0.0));
    ray.dir = UnitVec2::unit_x();
    should_hit_circle(ray, Vec2::new(fx(-2.0), fx(0.0)));
    ray.start.y = fx(3.0);
    should_miss(ray);
}

#[test]
fn ray_rect() {
    let pose = Pose::new(Vec2::new(fx(-5.0), fx(8.3)), rotor_deg(2.0));
    let rect = Collider::new_rect(fx(4.0), fx(2.0));

    let should_hit = |ray: Ray, expected_t: f64| {
        let hit = ray_collider(ray.transformed(pose), pose, rect).unwrap();
        assert_t_eq(hit, expected_t);
    };
    let should_miss =
        |ray: Ray| assert_eq!(ray_collider(ray.transformed(pose), pose, rect), None);

    let mut ray = Ray { start: Vec2::new(fx(0.0), fx(-2.0)), dir: UnitVec2::unit_y() };
    should_hit(ray, 1.0);
    ray.dir = dir(1.0, 1.0);
    should_hit(ray, 2f64.sqrt());
    ray.dir = dir(2.1, 1.0);
    should_miss(ray);
    ray.dir = UnitVec2::unit_x();
    should_miss(ray);
    ray.start.x = fx(-3.0);
    should_miss(ray);
    ray.dir = dir(1.0, 1.0);
    should_hit(ray, 2f64.sqrt());
    ray.dir = dir(2.0, 1.0);
    should_hit(ray, 5f64.sqrt());
    ray.dir = dir(1.0, 2.0);
    should_hit(ray, 5f64.sqrt());
}

#[test]
fn ray_rounded_rect() {
    let pose = Pose::new(Vec2::new(fx(500.0), fx(8.5)), rotor_deg(23.0));
    let rect = Collider::new_rounded_rect(fx(6.0), fx(4.0), fx(1.0));

    let should_hit = |ray: Ray, expected_t: f64| {
        let hit = ray_collider(ray.transformed(pose), pose, rect).unwrap();
        assert_t_eq(hit, expected_t);
    };
    let should_hit_circle = |ray: Ray, circ_pos: Vec2| {
        let box_hit = ray_collider(ray.transformed(pose), pose, rect);
        let circ_hit = ray_circle(ray, circ_pos, fx(1.0));
        match (box_hit, circ_hit) {
            (Some(b), Some(c)) => assert!((to_f(b) - to_f(c)).abs() < 0.0001),
            (None, None) => {}
            _ => panic!("one of circle / box missed but other didn't"),
        }
    };
    let should_miss =
        |ray: Ray| assert_eq!(ray_collider(ray.transformed(pose), pose, rect), None);

    let mut ray = Ray { start: Vec2::new(fx(0.0), fx(-3.0)), dir: UnitVec2::unit_y() };
    should_hit(ray, 1.0);
    ray.dir = dir(1.0, 1.0);
    should_hit(ray, 2f64.sqrt());
    ray.dir = dir(2.1, 1.0);
    should_hit_circle(ray, Vec2::new(fx(2.0), fx(-1.0)));
    ray.dir = UnitVec2::unit_x();
    should_miss(ray);
    ray.start.x = fx(-4.0);
    should_miss(ray);
    ray.dir = dir(1.0, 1.0);
    should_hit_circle(ray, Vec2::new(fx(-2.0), fx(-1.0)));
    ray.dir = dir(2.0, 1.0);
    should_hit(ray, 5f64.sqrt());
    ray.dir = dir(1.0, 2.0);
    should_hit(ray, 5f64.sqrt());
    ray.start.x = fx(-2.5);
    ray.dir = UnitVec2::unit_y();
    should_hit_circle(ray, Vec2::new(fx(-2.0), fx(-1.0)));
}

/// Convention: a ray always misses if it starts inside the collider.
#[test]
fn inside_always_misses() {
    let pose = Pose::identity();
    for coll in [
        Collider::new_circle(fx(1.0)),
        Collider::new_capsule(fx(2.0), fx(0.5)),
        Collider::new_rect(fx(2.0), fx(1.0)),
        Collider::new_rounded_rect(fx(2.0), fx(1.0), fx(0.25)),
    ] {
        let mut ray = Ray {
            // start at origin and hope it works for all other interior
            // points
            start: Vec2::zero(),
            dir: UnitVec2::unit_x(),
        };
        let mut angle: f64 = 0.0;
        while angle < 2.0 * std::f64::consts::TAU {
            let (y, x) = angle.sin_cos();
            ray.dir = UnitVec2::new_unchecked(Vec2::new(fx(x), fx(y)));
            let hit = ray_collider(ray, pose, coll);
            assert!(hit.is_none(), "hit shape {:?} from the inside", coll.shape);
            angle += 0.05;
        }
    }
}

/// A ray against a rounded rectangle at the origin meets the inflated face
/// at the polygon extent plus the radius.
#[test]
fn ray_meets_rounded_rect_face() {
    // inner half extents of one unit with a rounding radius of one fifth
    let rect = Collider::new_rounded_rect(fx(2.4), fx(2.4), fx(0.2));
    let ray = Ray { start: Vec2::new(fx(-10.0), fx(0.0)), dir: UnitVec2::unit_x() };
    let hit = ray_collider(ray, Pose::identity(), rect).unwrap();
    assert_t_eq(hit, 8.8);
}

/// Point queries against the inflated shapes.
#[test]
fn point_queries() {
    let pose = Pose::identity();
    let circ = Collider::new_circle(fx(1.0));
    assert!(point_collider_bool(Vec2::new(fx(0.5), fx(0.5)), pose, circ));
    assert!(!point_collider_bool(Vec2::new(fx(1.5), fx(0.0)), pose, circ));

    let cap = Collider::new_capsule(fx(4.0), fx(1.0));
    assert!(point_collider_bool(Vec2::new(fx(2.5), fx(0.5)), pose, cap));
    assert!(!point_collider_bool(Vec2::new(fx(3.1), fx(0.0)), pose, cap));

    let rect = Collider::new_rect(fx(4.0), fx(2.0));
    assert!(point_collider_bool(Vec2::new(fx(1.9), fx(0.9)), pose, rect));
    assert!(!point_collider_bool(Vec2::new(fx(2.1), fx(0.0)), pose, rect));

    let rrect = Collider::new_rounded_rect(fx(4.0), fx(2.0), fx(0.5));
    // just inside the rounded corner: the corner centre is at (1.5, 0.5)
    assert!(point_collider_bool(Vec2::new(fx(1.8), fx(0.8)), pose, rrect));
    // outside the corner arc though inside the sharp corner's box
    assert!(!point_collider_bool(Vec2::new(fx(1.95), fx(0.95)), pose, rrect));
}

/// Mirroring rays flips the matching coordinates exactly.
#[test]
fn ray_mirrors() {
    let ray = Ray { start: Vec2::new(fx(1.0), fx(2.0)), dir: dir(3.0, 4.0) };
    let mx = ray.mirrored_by_x();
    assert_eq!(mx.start.x, fx(1.0));
    assert_eq!(mx.start.y, -fx(2.0));
    assert_eq!(mx.dir.v.y, -ray.dir.v.y);
    let my = ray.mirrored_by_y();
    assert_eq!(my.start.x, -fx(1.0));
    assert_eq!(my.dir.v.x, -ray.dir.v.x);
    assert_eq!(my.start.y, fx(2.0));
}
