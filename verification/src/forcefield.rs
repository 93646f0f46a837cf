//! Position-dependent force fields fed to the solver and applied to all
//! rigid bodies each frame.

use crate::fixed::{COORD_LIM};
use crate::vec2::{vec_wf, Vec2};
use vstd::prelude::*;

verus! {

/// A (possibly) position-dependent force.
///
/// Implementors state their own value in `ensures`; the closed field types
/// below are the ones the engine ships.
pub trait ForceField: Send + Sync {
    /// The force at `position`, which must be a well-formed coordinate.
    fn value_at(&self, position: Vec2) -> (r: Vec2)
        requires
            vec_wf(position),
        ensures
            vec_wf(r),
    ;
}

/// No force anywhere.
#[derive(Clone, Copy, Debug, PartialEq, Eq, Structural)]
pub struct NoneField;

impl ForceField for NoneField {
    /// Zero everywhere.
    fn value_at(&self, _position: Vec2) -> (r: Vec2)
        ensures
            r == (Vec2 { x: 0i64, y: 0i64 }),
    {
        Vec2 { x: 0, y: 0 }
    }
}

/// Constant gravity over all of space.
#[derive(Clone, Copy, Debug, PartialEq, Eq, Structural)]
pub struct Gravity(pub Vec2);

impl ForceField for Gravity {
    /// The constant field value wherever it is sampled, clamped into the
    /// world bound.
    fn value_at(&self, _position: Vec2) -> (r: Vec2)
        ensures
            vec_wf(self.0) ==> r == self.0,
            r.x == crate::fixed::clamp_s(self.0.x as int, -COORD_LIM as int, COORD_LIM as int),
            r.y == crate::fixed::clamp_s(self.0.y as int, -COORD_LIM as int, COORD_LIM as int),
    {
        Vec2 {
            x: crate::fixed::iclamp(self.0.x, -COORD_LIM, COORD_LIM),
            y: crate::fixed::iclamp(self.0.y, -COORD_LIM, COORD_LIM),
        }
    }
}

/// The sum of two force fields.
#[derive(Clone, Copy, Debug)]
pub struct Sum<F1: ForceField, F2: ForceField>(pub F1, pub F2);

impl<F1: ForceField, F2: ForceField> ForceField for Sum<F1, F2> {
    /// The componentwise sum of both fields, saturating at the world bound.
    fn value_at(&self, position: Vec2) -> (r: Vec2)
        ensures
            vec_wf(r),
    {
        let a = self.0.value_at(position);
        let b = self.1.value_at(position);
        let x = if a.x <= COORD_LIM - b.x {
            a.x + b.x
        } else {
            COORD_LIM
        };
        let xc = if x >= -COORD_LIM {
            x
        } else {
            -COORD_LIM
        };
        let y = if a.y <= COORD_LIM - b.y {
            a.y + b.y
        } else {
            COORD_LIM
        };
        let yc = if y >= -COORD_LIM {
            y
        } else {
            -COORD_LIM
        };
        Vec2 { x: xc, y: yc }
    }
}

} // verus!
