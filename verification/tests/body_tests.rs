//! Bodies, force fields, the solver pass, and the fixed-point core.

use starframe::body::{Body, ColliderInfo, Mass, Velocity};
use starframe::collider::Collider;
use starframe::fixed::{fdiv_sat, fmul, isqrt, SCALE};
use starframe::forcefield::{ForceField, Gravity, NoneField, Sum};
use starframe::rotor::{Pose, Rotor2};
use starframe::solver::{predict_pose, recompute_velocity, ColliderFilter, RigidBodySolver};
use starframe::vec2::{UnitVec2, Vec2};

fn fx(v: f64) -> i64 {
    (v * SCALE as f64).round() as i64
}

/// The fixed-point core: products descale with floor rounding, quotients
/// saturate, and the integer square root brackets its argument.
#[test]
fn fixed_point_core() {
    assert_eq!(fmul(fx(2.0), fx(3.0)), fx(6.0));
    assert_eq!(fmul(fx(0.5), fx(0.5)), fx(0.25));
    assert_eq!(fmul(3, 1), 0); // floor: 3e-9 * 1e-9 rounds down to zero
    assert_eq!(fdiv_sat(fx(1.0), fx(4.0)), fx(0.25));
    assert_eq!(fdiv_sat(fx(1.0), -fx(4.0)), -fx(0.25));
    assert_eq!(fdiv_sat(fx(1.0), 1), 1_000_000_000_000_000_000);
    let s = isqrt(2_000_000_000_000_000_000);
    assert!(s * s <= 2_000_000_000_000_000_000);
    assert!((s + 1) * (s + 1) > 2_000_000_000_000_000_000);
}

/// Normalizing lands within the unit tolerance of length one.
#[test]
fn normalize_band() {
    let v = Vec2::new(fx(3.0), fx(-4.0));
    let u = UnitVec2::new_normalize(v);
    let sq = (u.v.x as i128) * (u.v.x as i128) + (u.v.y as i128) * (u.v.y as i128);
    let one = (SCALE as i128) * (SCALE as i128);
    assert!((sq - one).abs() <= 5_000_000_000_000);
    // direction kept: 3:-4 ratio
    assert!((u.v.x as f64 / u.v.y as f64 + 0.75).abs() < 1e-6);
}

/// Rotors rotate exactly in fixed point: a quarter turn maps x to y.
#[test]
fn rotor_quarter_turn() {
    let r = Rotor2::from_raw(0, SCALE);
    let v = r.rotate(Vec2::new(fx(1.0), fx(0.0)));
    assert_eq!(v.x, 0);
    assert_eq!(v.y, fx(1.0));
    let back = r.reversed().rotate(v);
    assert_eq!(back.x, fx(1.0));
    assert_eq!(back.y, 0);
}

/// Composing a pose with its inverse carries a point home within rounding.
#[test]
fn pose_roundtrip() {
    let rad: f64 = 0.7;
    let pose = Pose::new(
        Vec2::new(fx(10.0), fx(-3.0)),
        Rotor2::from_raw(fx(rad.cos()), fx(rad.sin())),
    );
    let p = Vec2::new(fx(2.0), fx(5.0));
    let there = pose.transform_point(p);
    let back = pose.inversed().transform_point(there);
    assert!((back.x - p.x).abs() < 100);
    assert!((back.y - p.y).abs() < 100);
}

/// A finite mass stores its inverse; an infinite one inverts to zero.
#[test]
fn mass_inverse() {
    let m = Mass::from_value(fx(2.0));
    assert_eq!(m.inv(), fx(0.5));
    assert_eq!(Mass::Infinite.inv(), 0);
}

/// Body constructors: particles do not rotate, kinematic bodies see no
/// forces, dynamic bodies derive mass from density and area.
#[test]
fn body_constructors() {
    let particle = Body::new_particle(fx(1.0));
    assert!(particle.sees_forces());
    assert!(matches!(particle.moment_of_inertia, Mass::Infinite));

    let kinematic = Body::new_kinematic();
    assert!(!kinematic.sees_forces());

    let info = ColliderInfo { area: fx(0.5), second_moment_of_area: fx(0.25) };
    let dynamic = Body::new_dynamic(info, fx(2.0));
    match dynamic.mass {
        Mass::Finite { mass, .. } => assert_eq!(mass, fx(1.0)),
        Mass::Infinite => panic!("dynamic mass must be finite"),
    }
    let heavy = Body::new_dynamic_const_mass(info, fx(1.0));
    match heavy.mass {
        Mass::Finite { mass, .. } => assert_eq!(mass, fx(1.0)),
        Mass::Infinite => panic!("dynamic mass must be finite"),
    }

    let still = Body::new_particle(fx(1.0)).ignore_gravity();
    assert!(still.ignores_gravity);
    let placed = Body::new_particle(fx(1.0))
        .with_pose(Pose::new(Vec2::new(fx(1.0), fx(2.0)), Rotor2::identity()))
        .with_velocity(Velocity { linear: Vec2::new(fx(3.0), 0), angular: 0 });
    assert_eq!(placed.pose.translation.x, fx(1.0));
    assert_eq!(placed.velocity.linear.x, fx(3.0));
}

/// Between sub-steps a dynamic body's velocity equals the pose difference
/// over the sub-step length, exactly.
#[test]
fn substep_velocity_exact() {
    let dt = SCALE / 60;
    let gravity = Vec2::new(0, fx(-10.0));
    let mut body = Body::new_particle(fx(1.0)).with_pose(Pose::new(
        Vec2::new(fx(0.0), fx(5.0)),
        Rotor2::identity(),
    ));
    let prev = predict_pose(&mut body, gravity, dt);
    // pretend a solver moved the body a little more
    body.pose.translation.y -= 12345;
    recompute_velocity(&mut body, prev, dt);
    // exactness: v == (pose - prev_pose) / dt, the very floor quotient
    let quot = |d: i64| -> i64 {
        ((d as i128 * SCALE as i128).div_euclid(dt as i128)) as i64
    };
    assert_eq!(body.velocity.linear.y, quot(body.pose.translation.y - prev.translation.y));
    assert_eq!(body.velocity.linear.x, quot(body.pose.translation.x - prev.translation.x));
}

/// Force fields: the none field vanishes, gravity is constant, sums add.
#[test]
fn force_fields() {
    let nowhere = NoneField;
    assert_eq!(nowhere.value_at(Vec2::new(fx(3.0), fx(4.0))).x, 0);
    let g = Gravity(Vec2::new(0, fx(-10.0)));
    assert_eq!(g.value_at(Vec2::zero()).y, fx(-10.0));
    let both = Sum(g, Gravity(Vec2::new(fx(1.0), 0)));
    let v = both.value_at(Vec2::zero());
    assert_eq!(v.x, fx(1.0));
    assert_eq!(v.y, fx(-10.0));
}

/// The brute-force solver pass finds exactly the overlapping pairs, in scan
/// order.
#[test]
fn solver_pair_scan() {
    let circle = Collider::new_circle(fx(1.0));
    let items = vec![
        ColliderFilter {
            id: 0,
            pose: Pose::new(Vec2::new(fx(0.0), fx(0.0)), Rotor2::identity()),
            coll: circle,
        },
        ColliderFilter {
            id: 1,
            pose: Pose::new(Vec2::new(fx(1.5), fx(0.0)), Rotor2::identity()),
            coll: circle,
        },
        ColliderFilter {
            id: 2,
            pose: Pose::new(Vec2::new(fx(10.0), fx(0.0)), Rotor2::identity()),
            coll: circle,
        },
    ];
    let events = RigidBodySolver.run_system(&items);
    assert_eq!(events.len(), 1);
    assert_eq!(events[0].first, 0);
    assert_eq!(events[0].second, 1);
    assert!(!events[0].contacts.is_zero());
}
