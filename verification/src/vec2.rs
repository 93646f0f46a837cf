//! Plane vectors in fixed-point, and approximately-unit direction vectors.

use crate::fixed::{
    abs_s, fdiv, fdiv_s, fmul, fmul_s, isqrt, lemma_div_in_range, lemma_sqrt_floor_bounds,
    sqrt_floor, COORD_LIM, FMUL_PROD_LIM, SCALE, SQ_LIM,
};
use vstd::arithmetic::div_mod::lemma_fundamental_div_mod;
use vstd::prelude::*;

verus! {

/// Tolerance of the squared length of a unit vector around `SCALE * SCALE`,
/// in raw squared steps: five parts in a million of the square.
pub const UNIT_TOL: i64 = 5_000_000_000_000;

/// Shortest vector that may be normalized, in raw steps (a thousandth of a
/// world unit).
pub const MIN_MAG: i64 = 1_000_000;

#[derive(Clone, Copy, Debug, PartialEq, Eq, Structural)]
pub struct Vec2 {
    pub x: i64,
    pub y: i64,
}

/// The squared length in raw squared steps, exactly.
pub open spec fn sq_raw_s(v: Vec2) -> int {
    v.x * v.x + v.y * v.y
}

/// The fixed-point dot product.
pub open spec fn dot_s(a: Vec2, b: Vec2) -> int {
    fmul_s(a.x as int, b.x as int) + fmul_s(a.y as int, b.y as int)
}

/// Componentwise sum, exact under the world bounds.
pub open spec fn vadd_s(a: Vec2, b: Vec2) -> Vec2 {
    Vec2 { x: (a.x + b.x) as i64, y: (a.y + b.y) as i64 }
}

/// Componentwise difference.
pub open spec fn vsub_s(a: Vec2, b: Vec2) -> Vec2 {
    Vec2 { x: (a.x - b.x) as i64, y: (a.y - b.y) as i64 }
}

/// Componentwise negation.
pub open spec fn vneg_s(a: Vec2) -> Vec2 {
    Vec2 { x: (-a.x) as i64, y: (-a.y) as i64 }
}

/// Scale by a fixed-point factor.
pub open spec fn vscale_s(f: int, v: Vec2) -> Vec2 {
    Vec2 { x: fmul_s(f, v.x as int) as i64, y: fmul_s(f, v.y as int) as i64 }
}

/// The floor-normalized direction of a vector.
pub open spec fn normalize_s(v: Vec2) -> Vec2 {
    let m = sqrt_floor(sq_raw_s(v));
    Vec2 { x: fdiv_s(v.x as int, m) as i64, y: fdiv_s(v.y as int, m) as i64 }
}

/// A well-formed simulation vector: both coordinates within the world bound.
pub open spec fn vec_wf(v: Vec2) -> bool {
    &&& -COORD_LIM <= v.x <= COORD_LIM
    &&& -COORD_LIM <= v.y <= COORD_LIM
}

/// A direction vector whose squared length strays from `SCALE * SCALE` by at
/// most `tol`, with its components inside two units.
pub open spec fn is_unit(v: Vec2, tol: int) -> bool {
    &&& (SCALE as int) * (SCALE as int) - tol <= sq_raw_s(v) <= (SCALE as int) * (SCALE as int)
        + tol
    &&& -2 * (SCALE as int) <= v.x <= 2 * (SCALE as int)
    &&& -2 * (SCALE as int) <= v.y <= 2 * (SCALE as int)
}

impl Vec2 {
    pub fn new(x: i64, y: i64) -> (r: Vec2)
        ensures
            r == (Vec2 { x, y }),
    {
        Vec2 { x, y }
    }

    pub fn zero() -> (r: Vec2)
        ensures
            r == (Vec2 { x: 0i64, y: 0i64 }),
    {
        Vec2 { x: 0, y: 0 }
    }

    pub fn add(self, o: Vec2) -> (r: Vec2)
        requires
            -i64::MAX <= self.x + o.x <= i64::MAX,
            -i64::MAX <= self.y + o.y <= i64::MAX,
        ensures
            r.x == self.x + o.x,
            r.y == self.y + o.y,
            r == vadd_s(self, o),
    {
        Vec2 { x: self.x + o.x, y: self.y + o.y }
    }

    pub fn sub(self, o: Vec2) -> (r: Vec2)
        requires
            -i64::MAX <= self.x - o.x <= i64::MAX,
            -i64::MAX <= self.y - o.y <= i64::MAX,
        ensures
            r.x == self.x - o.x,
            r.y == self.y - o.y,
            r == vsub_s(self, o),
    {
        Vec2 { x: self.x - o.x, y: self.y - o.y }
    }

    pub fn neg(self) -> (r: Vec2)
        requires
            self.x > i64::MIN,
            self.y > i64::MIN,
        ensures
            r.x == -self.x,
            r.y == -self.y,
            r == vneg_s(self),
    {
        Vec2 { x: -self.x, y: -self.y }
    }

    /// Scale a direction-sized vector by a fixed-point factor.
    pub fn scaled(self, f: i64) -> (r: Vec2)
        requires
            -3 * SCALE <= self.x <= 3 * SCALE,
            -3 * SCALE <= self.y <= 3 * SCALE,
            -COORD_LIM <= f <= COORD_LIM,
        ensures
            r.x == fmul_s(f as int, self.x as int),
            r.y == fmul_s(f as int, self.y as int),
            r == vscale_s(f as int, self),
            abs_s(r.x as int) <= 3 * abs_s(f as int) + 1,
            abs_s(r.y as int) <= 3 * abs_s(f as int) + 1,
    {
        proof {
            lemma_scaled_term(f as int, self.x as int);
            lemma_scaled_term(f as int, self.y as int);
        }
        Vec2 { x: fmul(f, self.x), y: fmul(f, self.y) }
    }

    /// The dot product with a direction-sized vector.
    pub fn dot(self, o: Vec2) -> (r: i64)
        requires
            -2 * COORD_LIM <= self.x <= 2 * COORD_LIM,
            -2 * COORD_LIM <= self.y <= 2 * COORD_LIM,
            -3 * SCALE <= o.x <= 3 * SCALE,
            -3 * SCALE <= o.y <= 3 * SCALE,
        ensures
            r == dot_s(self, o),
            -12 * COORD_LIM - 2 <= r <= 12 * COORD_LIM + 2,
    {
        proof {
            lemma_scaled_term(self.x as int, o.x as int);
            lemma_scaled_term(self.y as int, o.y as int);
        }
        fmul(self.x, o.x) + fmul(self.y, o.y)
    }

    /// The exact squared length in raw squared steps.
    pub fn mag_sq_raw(self) -> (r: i128)
        requires
            vec_wf(self),
        ensures
            r == sq_raw_s(self),
            0 <= r <= SQ_LIM,
    {
        proof {
            lemma_sq_raw_in_lim(self);
        }
        let xx: i128 = (self.x as i128) * (self.x as i128);
        let yy: i128 = (self.y as i128) * (self.y as i128);
        xx + yy
    }

    /// The fixed-point length: the floor square root of the raw square.
    pub fn mag(self) -> (r: i64)
        requires
            vec_wf(self),
        ensures
            r == sqrt_floor(sq_raw_s(self)),
            0 <= r,
    {
        proof {
            lemma_sq_raw_in_lim(self);
        }
        isqrt(self.mag_sq_raw())
    }

    /// The left-hand normal `(-y, x)`.
    pub fn left_normal(self) -> (r: Vec2)
        requires
            self.y > i64::MIN,
        ensures
            r.x == -self.y,
            r.y == self.x,
    {
        Vec2 { x: -self.y, y: self.x }
    }
}

/// A product of a world-bounded scalar and a direction-sized scalar stays
/// within the multiplier's domain, and descales to thrice the scalar.
pub proof fn lemma_scaled_term(f: int, x: int)
    requires
        -2 * COORD_LIM <= f <= 2 * COORD_LIM,
        -3 * SCALE <= x <= 3 * SCALE,
    ensures
        -FMUL_PROD_LIM <= f * x <= FMUL_PROD_LIM,
        -FMUL_PROD_LIM <= x * f <= FMUL_PROD_LIM,
        abs_s(fmul_s(f, x)) <= 3 * abs_s(f) + 1,
        abs_s(fmul_s(x, f)) <= 3 * abs_s(f) + 1,
{
    let s = SCALE as int;
    assert(-(3 * s * abs_s(f)) <= f * x <= 3 * s * abs_s(f) && x * f == f * x
        && 3 * s * abs_s(f) <= FMUL_PROD_LIM) by (nonlinear_arith)
        requires
            -2 * COORD_LIM <= f <= 2 * COORD_LIM,
            -3 * s <= x <= 3 * s,
            abs_s(f) == if f >= 0 {
                f
            } else {
                -f
            },
            s == 1_000_000_000int,
            COORD_LIM == 300_000_000_000_000i64,
            FMUL_PROD_LIM == 9_000_000_000_000_000_000_000_000_000i128,
    ;
    lemma_div_in_range(f * x, 3 * s * abs_s(f), s);
    assert((3 * s * abs_s(f)) / s == 3 * abs_s(f)) by (nonlinear_arith)
        requires
            s == 1_000_000_000int,
            0 <= abs_s(f),
    ;
}

/// The squared length of a well-formed vector is within `isqrt`'s domain.
pub proof fn lemma_sq_raw_in_lim(v: Vec2)
    requires
        vec_wf(v),
    ensures
        0 <= v.x * v.x <= SQ_LIM,
        0 <= v.y * v.y <= SQ_LIM,
        0 <= sq_raw_s(v) <= SQ_LIM,
{
    assert(0 <= v.x * v.x && 0 <= v.y * v.y && v.x * v.x + v.y * v.y <= SQ_LIM)
        by (nonlinear_arith)
        requires
            -COORD_LIM <= v.x <= COORD_LIM,
            -COORD_LIM <= v.y <= COORD_LIM,
            COORD_LIM == 300_000_000_000_000i64,
            SQ_LIM == 200_000_000_000_000_000_000_000_000_000i128,
    ;
}

/// A direction: a vector kept near unit length. The wrapped vector is
/// public, as the unit property is carried by contracts, not hidden state.
#[derive(Clone, Copy, Debug, PartialEq, Eq, Structural)]
pub struct UnitVec2 {
    pub v: Vec2,
}

impl UnitVec2 {
    pub fn unit_x() -> (r: UnitVec2)
        ensures
            r.v == (Vec2 { x: SCALE, y: 0i64 }),
            is_unit(r.v, 0),
    {
        UnitVec2 { v: Vec2 { x: SCALE, y: 0 } }
    }

    pub fn unit_y() -> (r: UnitVec2)
        ensures
            r.v == (Vec2 { x: 0i64, y: SCALE }),
            is_unit(r.v, 0),
    {
        UnitVec2 { v: Vec2 { x: 0, y: SCALE } }
    }

    /// Wrap a vector that is already known to be of unit length, for example
    /// one divided by its own magnitude by the caller.
    pub fn new_unchecked(v: Vec2) -> (r: UnitVec2)
        ensures
            r.v == v,
    {
        UnitVec2 { v }
    }

    /// Normalize a vector of at least `MIN_MAG` length. The components are
    /// the floor quotients by the floor magnitude, which keeps the squared
    /// length within `UNIT_TOL` of one.
    pub fn new_normalize(v: Vec2) -> (r: UnitVec2)
        requires
            vec_wf(v),
            sq_raw_s(v) >= MIN_MAG * MIN_MAG,
        ensures
            r.v.x == fdiv_s(v.x as int, sqrt_floor(sq_raw_s(v))),
            r.v.y == fdiv_s(v.y as int, sqrt_floor(sq_raw_s(v))),
            r.v == normalize_s(v),
            is_unit(r.v, UNIT_TOL as int),
    {
        let m: i64 = v.mag();
        proof {
            lemma_sq_raw_in_lim(v);
            lemma_sqrt_floor_bounds(sq_raw_s(v));
            assert(m >= MIN_MAG) by (nonlinear_arith)
                requires
                    (m + 1) * (m + 1) > MIN_MAG * MIN_MAG,
                    m >= 0,
                    MIN_MAG == 1_000_000i64,
            ;
            lemma_normalize_band(v.x as int, v.y as int, m as int);
        }
        let ux: i64 = fdiv(v.x, m);
        let uy: i64 = fdiv(v.y, m);
        UnitVec2 { v: Vec2 { x: ux, y: uy } }
    }

    pub fn neg(self) -> (r: UnitVec2)
        requires
            self.v.x > i64::MIN,
            self.v.y > i64::MIN,
        ensures
            r.v.x == -self.v.x,
            r.v.y == -self.v.y,
    {
        UnitVec2 { v: self.v.neg() }
    }
}

/// Dividing the components of a vector by its floor magnitude lands the
/// squared length within `UNIT_TOL` of `SCALE * SCALE`, and the components
/// within two units.
proof fn lemma_normalize_band(x: int, y: int, m: int)
    requires
        MIN_MAG <= m,
        m * m <= x * x + y * y,
        x * x + y * y < (m + 1) * (m + 1),
        x * x + y * y <= SQ_LIM,
    ensures
        -i64::MAX <= fdiv_s(x, m) <= i64::MAX,
        -i64::MAX <= fdiv_s(y, m) <= i64::MAX,
        is_unit(
            Vec2 {
                x: fdiv_s(x, m) as i64,
                y: fdiv_s(y, m) as i64,
            },
            UNIT_TOL as int,
        ),
{
    let s = SCALE as int;
    let q = x * x + y * y;
    // components are bounded by the magnitude
    assert(-m <= x <= m && -m <= y <= m) by (nonlinear_arith)
        requires
            0 < m,
            q == x * x + y * y,
            q < (m + 1) * (m + 1),
    ;
    lemma_fundamental_div_mod(x * s, m);
    lemma_fundamental_div_mod(y * s, m);
    let ux = (x * s) / m;
    let uy = (y * s) / m;
    let rx = (x * s) % m;
    let ry = (y * s) % m;
    let tol = UNIT_TOL as int;
    // component bound: |ux| <= s + s/m <= 2s
    assert(-2 * s <= ux <= 2 * s && -2 * s <= uy <= 2 * s) by (nonlinear_arith)
        requires
            MIN_MAG <= m,
            -m <= x <= m,
            -m <= y <= m,
            x * s == m * ux + rx,
            y * s == m * uy + ry,
            0 <= rx < m,
            0 <= ry < m,
            s == SCALE as int,
    ;
    // per-component bracket of (m * u)^2 = (x * s - r)^2 around x^2 * s^2
    assert((m * ux) * (m * ux) <= x * x * (s * s) + 2 * (m * m) * s + m * m && (m * ux) * (m * ux)
        >= x * x * (s * s) - 2 * (m * m) * s) by (nonlinear_arith)
        requires
            0 < m,
            -m <= x <= m,
            m * ux == x * s - rx,
            0 <= rx < m,
            0 < s,
    ;
    assert((m * uy) * (m * uy) <= y * y * (s * s) + 2 * (m * m) * s + m * m && (m * uy) * (m * uy)
        >= y * y * (s * s) - 2 * (m * m) * s) by (nonlinear_arith)
        requires
            0 < m,
            -m <= y <= m,
            m * uy == y * s - ry,
            0 <= ry < m,
            0 < s,
    ;
    // sum the brackets and use m * m <= q <= m * m + 2 * m
    assert((m * ux) * (m * ux) + (m * uy) * (m * uy) <= (m * m) * (s * s + tol) && (m * ux) * (m
        * ux) + (m * uy) * (m * uy) >= (m * m) * (s * s - tol)) by (nonlinear_arith)
        requires
            MIN_MAG <= m,
            m * m <= q,
            q < (m + 1) * (m + 1),
            q == x * x + y * y,
            (m * ux) * (m * ux) <= x * x * (s * s) + 2 * (m * m) * s + m * m,
            (m * ux) * (m * ux) >= x * x * (s * s) - 2 * (m * m) * s,
            (m * uy) * (m * uy) <= y * y * (s * s) + 2 * (m * m) * s + m * m,
            (m * uy) * (m * uy) >= y * y * (s * s) - 2 * (m * m) * s,
            s == SCALE as int,
            SCALE == 1_000_000_000i64,
            MIN_MAG == 1_000_000i64,
            tol == 5_000_000_000_000int,
    ;
    // divide the bracket by m * m
    assert(s * s - tol <= ux * ux + uy * uy <= s * s + tol) by (nonlinear_arith)
        requires
            0 < m,
            (m * m) * (s * s - tol) <= (m * ux) * (m * ux) + (m * uy) * (m * uy) <= (m * m) * (s
                * s + tol),
    ;
}

} // verus!
