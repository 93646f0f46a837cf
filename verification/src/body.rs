//! Rigid bodies and particles: pose, velocity, mass, moment of inertia.

use crate::fixed::{fdiv, fdiv_s, fmul, fmul_s, lemma_prod_bound, SCALE};
use crate::rotor::Pose;
use crate::vec2::{vadd_s, vec_wf, vscale_s, Vec2};
use vstd::prelude::*;

verus! {

/// Bound on mass and inertia values: a million units.
pub const MASS_LIM: i64 = 1_000_000_000_000_000;

/// Linear and angular velocity of a body.
#[derive(Clone, Copy, Debug, PartialEq, Eq, Structural)]
pub struct Velocity {
    pub linear: Vec2,
    pub angular: i64,
}

impl Velocity {
    pub fn zero() -> (v: Velocity)
        ensures
            v.linear == (Vec2 { x: 0i64, y: 0i64 }),
            v.angular == 0,
    {
        Velocity { linear: Vec2 { x: 0, y: 0 }, angular: 0 }
    }
}

/// Mass or moment of inertia of a body, which can be infinite. A finite
/// value stores its inverse beside it, because the inverse is what the
/// solver needs on every constraint.
#[derive(Clone, Copy, Debug, PartialEq, Eq, Structural)]
pub enum Mass {
    Finite { mass: i64, inverse: i64 },
    Infinite,
}

impl Mass {
    /// A finite mass paired with its fixed-point inverse.
    pub fn from_value(mass: i64) -> (m: Mass)
        requires
            0 < mass <= MASS_LIM,
        ensures
            m == (Mass::Finite { mass, inverse: fdiv_s(SCALE as int, mass as int) as i64 }),
    {
        proof {
            crate::fixed::lemma_div_in_range(
                (SCALE as int) * (SCALE as int),
                (SCALE as int) * (SCALE as int),
                mass as int,
            );
        }
        Mass::Finite { mass, inverse: fdiv(SCALE, mass) }
    }

    /// The inverse of the mass, which is zero if the mass is infinite.
    pub fn inv(&self) -> (r: i64)
        ensures
            r == match *self {
                Mass::Finite { inverse, .. } => inverse,
                Mass::Infinite => 0,
            },
    {
        match self {
            Mass::Finite { inverse, .. } => *inverse,
            Mass::Infinite => 0,
        }
    }
}

/// A body is something that moves: a physics-enabled rigid body or
/// particle. Connect a body with a collider to make it collide.
#[derive(Clone, Copy, Debug)]
pub struct Body {
    pub pose: Pose,
    pub velocity: Velocity,
    pub mass: Mass,
    pub moment_of_inertia: Mass,
    pub ignores_gravity: bool,
}

/// The area and second moment of area of a collider, for deriving mass and
/// moment of inertia from a density.
#[derive(Clone, Copy, Debug, PartialEq, Eq, Structural)]
pub struct ColliderInfo {
    pub area: i64,
    pub second_moment_of_area: i64,
}

impl Body {
    /// Whether forces act on the body, as a spec value.
    pub open spec fn sees_forces_s(self) -> bool {
        !(self.mass is Infinite && self.moment_of_inertia is Infinite)
    }

    /// A particle responds to external forces but does not rotate.
    pub fn new_particle(mass: i64) -> (b: Body)
        requires
            0 < mass <= MASS_LIM,
        ensures
            b.mass == (Mass::Finite {
                mass,
                inverse: fdiv_s(SCALE as int, mass as int) as i64,
            }),
            b.moment_of_inertia == Mass::Infinite,
            !b.ignores_gravity,
            b.pose == Pose::identity_s(),
            b.velocity == Velocity::zero_s(),
    {
        Body {
            pose: Pose::identity(),
            velocity: Velocity::zero(),
            mass: Mass::from_value(mass),
            moment_of_inertia: Mass::Infinite,
            ignores_gravity: false,
        }
    }

    /// Dynamic bodies respond to external forces and are allowed to rotate.
    /// Mass and moment of inertia derive from the density and the collider.
    pub fn new_dynamic(coll_info: ColliderInfo, density: i64) -> (b: Body)
        requires
            0 < coll_info.area <= SCALE,
            0 <= coll_info.second_moment_of_area <= SCALE,
            0 < density <= SCALE,
            fmul_s(coll_info.area as int, density as int) > 0,
            fmul_s(coll_info.second_moment_of_area as int, density as int) > 0,
        ensures
            b.mass == (Mass::Finite {
                mass: fmul_s(coll_info.area as int, density as int) as i64,
                inverse: fdiv_s(SCALE as int, fmul_s(coll_info.area as int, density as int))
                    as i64,
            }),
            b.moment_of_inertia == (Mass::Finite {
                mass: fmul_s(coll_info.second_moment_of_area as int, density as int) as i64,
                inverse: fdiv_s(
                    SCALE as int,
                    fmul_s(coll_info.second_moment_of_area as int, density as int),
                ) as i64,
            }),
            !b.ignores_gravity,
    {
        proof {
            lemma_prod_bound(
                coll_info.area as int,
                density as int,
                SCALE as int,
                SCALE as int,
            );
            lemma_prod_bound(
                coll_info.second_moment_of_area as int,
                density as int,
                SCALE as int,
                SCALE as int,
            );
            crate::fixed::lemma_div_in_range(
                (coll_info.area as int) * (density as int),
                (SCALE as int) * (SCALE as int),
                SCALE as int,
            );
            crate::fixed::lemma_div_in_range(
                (coll_info.second_moment_of_area as int) * (density as int),
                (SCALE as int) * (SCALE as int),
                SCALE as int,
            );
            assert(((SCALE as int) * (SCALE as int)) / (SCALE as int) == SCALE as int)
                by (nonlinear_arith)
                requires
                    SCALE == 1_000_000_000i64,
            ;
        }
        let mass = fmul(coll_info.area, density);
        let moi = fmul(coll_info.second_moment_of_area, density);
        Body {
            pose: Pose::identity(),
            velocity: Velocity::zero(),
            mass: Mass::from_value(mass),
            moment_of_inertia: Mass::from_value(moi),
            ignores_gravity: false,
        }
    }

    /// Create a dynamic body with the given mass instead of a density; the
    /// collider is still needed for the moment of inertia.
    pub fn new_dynamic_const_mass(coll_info: ColliderInfo, mass: i64) -> (b: Body)
        requires
            0 < coll_info.area <= SCALE,
            0 <= coll_info.second_moment_of_area <= SCALE,
            0 < mass <= SCALE,
            0 < fdiv_s(mass as int, coll_info.area as int) <= SCALE,
            fmul_s(
                coll_info.second_moment_of_area as int,
                fdiv_s(mass as int, coll_info.area as int),
            ) > 0,
        ensures
            b.mass == (Mass::Finite { mass, inverse: fdiv_s(SCALE as int, mass as int) as i64 }),
            b.moment_of_inertia matches Mass::Finite { mass: moi, .. } && moi == fmul_s(
                coll_info.second_moment_of_area as int,
                fdiv_s(mass as int, coll_info.area as int),
            ),
            !b.ignores_gravity,
    {
        proof {
            crate::fixed::lemma_div_in_range(
                (mass as int) * (SCALE as int),
                (SCALE as int) * (SCALE as int),
                coll_info.area as int,
            );
            lemma_prod_bound(
                (SCALE as int) * (SCALE as int),
                1int,
                (SCALE as int) * (SCALE as int),
                1int,
            );
        }
        let density = fdiv(mass, coll_info.area);
        proof {
            lemma_prod_bound(
                coll_info.second_moment_of_area as int,
                density as int,
                SCALE as int,
                SCALE as int,
            );
            crate::fixed::lemma_div_in_range(
                (coll_info.second_moment_of_area as int) * (density as int),
                (SCALE as int) * (SCALE as int),
                SCALE as int,
            );
            assert(((SCALE as int) * (SCALE as int)) / (SCALE as int) == SCALE as int)
                by (nonlinear_arith)
                requires
                    SCALE == 1_000_000_000i64,
            ;
        }
        let moi = fmul(coll_info.second_moment_of_area, density);
        Body {
            pose: Pose::identity(),
            velocity: Velocity::zero(),
            mass: Mass::from_value(mass),
            moment_of_inertia: Mass::from_value(moi),
            ignores_gravity: false,
        }
    }

    /// Kinematic bodies are not affected by collision forces.
    pub fn new_kinematic() -> (b: Body)
        ensures
            b.mass == Mass::Infinite,
            b.moment_of_inertia == Mass::Infinite,
            !b.ignores_gravity,
            b.pose == Pose::identity_s(),
            b.velocity == Velocity::zero_s(),
    {
        Body {
            pose: Pose::identity(),
            velocity: Velocity::zero(),
            mass: Mass::Infinite,
            moment_of_inertia: Mass::Infinite,
            ignores_gravity: false,
        }
    }

    /// Set the pose in a builder-like chain.
    pub fn with_pose(self, pose: Pose) -> (b: Body)
        ensures
            b.pose == pose,
            b.velocity == self.velocity,
            b.mass == self.mass,
            b.moment_of_inertia == self.moment_of_inertia,
            b.ignores_gravity == self.ignores_gravity,
    {
        Body { pose, ..self }
    }

    /// Set the velocity in a builder-like chain.
    pub fn with_velocity(self, vel: Velocity) -> (b: Body)
        ensures
            b.velocity == vel,
            b.pose == self.pose,
            b.mass == self.mass,
            b.moment_of_inertia == self.moment_of_inertia,
            b.ignores_gravity == self.ignores_gravity,
    {
        Body { velocity: vel, ..self }
    }

    /// Stop this body from being accelerated by gravity.
    pub fn ignore_gravity(self) -> (b: Body)
        ensures
            b.ignores_gravity,
            b.pose == self.pose,
            b.velocity == self.velocity,
            b.mass == self.mass,
            b.moment_of_inertia == self.moment_of_inertia,
    {
        Body { ignores_gravity: true, ..self }
    }

    /// Whether the body has finite mass or moment of inertia, allowing
    /// forces to have an effect on it.
    pub fn sees_forces(&self) -> (r: bool)
        ensures
            r == self.sees_forces_s(),
    {
        !(matches!(self.mass, Mass::Infinite) && matches!(self.moment_of_inertia, Mass::Infinite))
    }
}

impl Pose {
    /// The identity pose as a spec value.
    pub open spec fn identity_s() -> Pose {
        Pose {
            translation: Vec2 { x: 0i64, y: 0i64 },
            rotation: crate::rotor::Rotor2 { c: SCALE, s: 0i64 },
        }
    }
}

impl Velocity {
    /// The zero velocity as a spec value.
    pub open spec fn zero_s() -> Velocity {
        Velocity { linear: Vec2 { x: 0i64, y: 0i64 }, angular: 0i64 }
    }
}

} // verus!
