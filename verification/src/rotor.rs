//! Rotations and rigid-body poses in the plane.
//!
//! A rotor is the even-grade pair `(c, s)` of a unit complex number in
//! fixed-point; a pose combines a rotor with a translation. All operations
//! have exact fixed-point contracts; how far a rotor may stray from unit
//! length is tracked by explicit tolerance predicates.

use crate::fixed::{abs_s, fmul, fmul_s, lemma_div_in_range, SCALE};
use crate::vec2::{is_unit, sq_raw_s, vec_wf, Vec2};
use vstd::arithmetic::div_mod::lemma_fundamental_div_mod;
use vstd::arithmetic::mul::{lemma_mul_is_associative, lemma_mul_is_commutative};
use vstd::prelude::*;

verus! {

/// Tolerance accepted of the rotor of an input pose, in raw squared steps.
pub const ROTOR_TOL: i64 = 100_000_000_000;

/// How much one rotation may widen a squared-length tolerance band.
pub const ROT_GROW: i64 = 100_000_000_000;

/// Bound on the translation of an input pose: a thousand world units.
pub const TRANS_LIM: i64 = 1_000_000_000_000;

#[derive(Clone, Copy, Debug, PartialEq, Eq, Structural)]
pub struct Rotor2 {
    pub c: i64,
    pub s: i64,
}

/// A rotor whose squared length strays from one by at most `tol`.
pub open spec fn rotor_wf(r: Rotor2, tol: int) -> bool {
    &&& (SCALE as int) * (SCALE as int) - tol <= r.c * r.c + r.s * r.s <= (SCALE as int) * (
    SCALE as int) + tol
    &&& -2 * (SCALE as int) <= r.c <= 2 * (SCALE as int)
    &&& -2 * (SCALE as int) <= r.s <= 2 * (SCALE as int)
}

/// First component of a vector rotated by a rotor.
pub open spec fn rot_x_s(r: Rotor2, v: Vec2) -> int {
    fmul_s(r.c as int, v.x as int) - fmul_s(r.s as int, v.y as int)
}

/// Second component of a vector rotated by a rotor.
pub open spec fn rot_y_s(r: Rotor2, v: Vec2) -> int {
    fmul_s(r.s as int, v.x as int) + fmul_s(r.c as int, v.y as int)
}

/// A vector rotated by a rotor, as a vector.
pub open spec fn rotate_v_s(r: Rotor2, v: Vec2) -> Vec2 {
    Vec2 { x: rot_x_s(r, v) as i64, y: rot_y_s(r, v) as i64 }
}

/// The reversed rotor.
pub open spec fn rot_rev_s(r: Rotor2) -> Rotor2 {
    Rotor2 { c: r.c, s: (-r.s) as i64 }
}

/// The product of two rotors, applying `b` first.
pub open spec fn rotor_comp_s(a: Rotor2, b: Rotor2) -> Rotor2 {
    Rotor2 {
        c: (fmul_s(a.c as int, b.c as int) - fmul_s(a.s as int, b.s as int)) as i64,
        s: (fmul_s(a.s as int, b.c as int) + fmul_s(a.c as int, b.s as int)) as i64,
    }
}

/// A point carried through a pose.
pub open spec fn pose_pt_s(p: Pose, v: Vec2) -> Vec2 {
    crate::vec2::vadd_s(rotate_v_s(p.rotation, v), p.translation)
}

/// The inverse pose.
pub open spec fn pose_inv_s(p: Pose) -> Pose {
    Pose {
        rotation: rot_rev_s(p.rotation),
        translation: crate::vec2::vneg_s(rotate_v_s(rot_rev_s(p.rotation), p.translation)),
    }
}

/// The composite pose applying `b` first.
pub open spec fn pose_comp_s(a: Pose, b: Pose) -> Pose {
    Pose {
        rotation: rotor_comp_s(a.rotation, b.rotation),
        translation: crate::vec2::vadd_s(rotate_v_s(a.rotation, b.translation), a.translation),
    }
}

impl Rotor2 {
    pub fn identity() -> (r: Rotor2)
        ensures
            r == (Rotor2 { c: SCALE, s: 0i64 }),
            rotor_wf(r, 0),
    {
        Rotor2 { c: SCALE, s: 0 }
    }

    /// Build a rotor from raw cosine and sine steps, for example rounded
    /// from a caller's own trigonometry. The pair must already be within the
    /// input tolerance of unit length.
    pub fn from_raw(c: i64, s: i64) -> (r: Rotor2)
        requires
            rotor_wf(Rotor2 { c, s }, ROTOR_TOL as int),
        ensures
            r == (Rotor2 { c, s }),
            rotor_wf(r, ROTOR_TOL as int),
    {
        Rotor2 { c, s }
    }

    /// The inverse rotation: same cosine, negated sine. Exact, and it keeps
    /// any tolerance band.
    pub fn reversed(self) -> (r: Rotor2)
        requires
            self.s > i64::MIN,
        ensures
            r.c == self.c,
            r.s == -self.s,
            r == rot_rev_s(self),
            forall|tol: int| rotor_wf(self, tol) ==> rotor_wf(r, tol),
    {
        let r = Rotor2 { c: self.c, s: -self.s };
        proof {
            assert forall|tol: int| rotor_wf(self, tol) implies rotor_wf(r, tol) by {
                assert(r.s * r.s == self.s * self.s) by (nonlinear_arith)
                    requires
                        r.s == -self.s,
                ;
            }
        }
        r
    }

    /// Rotate a vector. Each component is the exact fixed-point evaluation
    /// of the rotation formula.
    pub fn rotate(self, v: Vec2) -> (r: Vec2)
        requires
            -2 * SCALE <= self.c <= 2 * SCALE,
            -2 * SCALE <= self.s <= 2 * SCALE,
            vec_wf(v),
        ensures
            r.x == rot_x_s(self, v),
            r.y == rot_y_s(self, v),
            r == rotate_v_s(self, v),
            abs_s(r.x as int) <= 2 * abs_s(v.x as int) + 2 * abs_s(v.y as int) + 2,
            abs_s(r.y as int) <= 2 * abs_s(v.x as int) + 2 * abs_s(v.y as int) + 2,
    {
        proof {
            lemma_fmul_rot_bound(self.c as int, v.x as int);
            lemma_fmul_rot_bound(self.s as int, v.y as int);
            lemma_fmul_rot_bound(self.s as int, v.x as int);
            lemma_fmul_rot_bound(self.c as int, v.y as int);
        }
        let x = fmul(self.c, v.x) - fmul(self.s, v.y);
        let y = fmul(self.s, v.x) + fmul(self.c, v.y);
        Vec2 { x, y }
    }

    /// The product of two rotations, applying `o` first; the exact
    /// fixed-point evaluation of the complex product.
    pub fn compose(self, o: Rotor2) -> (r: Rotor2)
        requires
            -2 * SCALE <= self.c <= 2 * SCALE,
            -2 * SCALE <= self.s <= 2 * SCALE,
            -2 * SCALE <= o.c <= 2 * SCALE,
            -2 * SCALE <= o.s <= 2 * SCALE,
        ensures
            r.c == fmul_s(self.c as int, o.c as int) - fmul_s(self.s as int, o.s as int),
            r.s == fmul_s(self.s as int, o.c as int) + fmul_s(self.c as int, o.s as int),
            r == rotor_comp_s(self, o),
    {
        proof {
            lemma_fmul_rot_bound(self.c as int, o.c as int);
            lemma_fmul_rot_bound(self.s as int, o.s as int);
            lemma_fmul_rot_bound(self.s as int, o.c as int);
            lemma_fmul_rot_bound(self.c as int, o.s as int);
        }
        let c = fmul(self.c, o.c) - fmul(self.s, o.s);
        let s = fmul(self.s, o.c) + fmul(self.c, o.s);
        Rotor2 { c, s }
    }
}

/// Four factors in a product may swap their outer positions.
proof fn lemma_mul_four_swap(a: int, b: int, c: int, d: int)
    ensures
        (a * b) * (c * d) == (c * b) * (a * d),
{
    lemma_mul_is_associative(a * b, c, d);
    lemma_mul_is_associative(c * b, a, d);
    lemma_mul_is_commutative(a * b, c);
    lemma_mul_is_associative(c, a, b);
    lemma_mul_is_commutative(c, a);
    lemma_mul_is_associative(a, c, b);
    lemma_mul_is_commutative(c * b, a);
}

/// The Brahmagupta identity for a product of two sums of squares:
/// `(cx - sy)^2 + (sx + cy)^2 == (c^2 + s^2) (x^2 + y^2)`.
proof fn lemma_sum_of_squares_identity(c: int, s: int, x: int, y: int)
    ensures
        (c * x - s * y) * (c * x - s * y) + (s * x + c * y) * (s * x + c * y) == (c * c + s * s) * (
        x * x + y * y),
{
    let p = c * x;
    let q = s * y;
    let u = s * x;
    let t = c * y;
    assert((p - q) * (p - q) == p * p - 2 * (p * q) + q * q) by (nonlinear_arith);
    assert((u + t) * (u + t) == u * u + 2 * (u * t) + t * t) by (nonlinear_arith);
    lemma_mul_four_swap(c, x, s, y);
    assert(p * q == u * t);
    assert((c * c + s * s) * (x * x + y * y) == (c * c) * (x * x) + (c * c) * (y * y) + (s * s) * (
    x * x) + (s * s) * (y * y)) by (nonlinear_arith);
    lemma_mul_four_swap(c, c, x, x);
    lemma_mul_is_commutative(x, c);
    assert((c * c) * (x * x) == p * p);
    lemma_mul_four_swap(c, c, y, y);
    lemma_mul_is_commutative(y, c);
    assert((c * c) * (y * y) == t * t);
    lemma_mul_four_swap(s, s, x, x);
    lemma_mul_is_commutative(x, s);
    assert((s * s) * (x * x) == u * u);
    lemma_mul_four_swap(s, s, y, y);
    lemma_mul_is_commutative(y, s);
    assert((s * s) * (y * y) == q * q);
}

/// A rotor component times a bounded scalar descales to twice the scalar.
proof fn lemma_fmul_rot_bound(a: int, b: int)
    requires
        -2 * SCALE <= a <= 2 * SCALE,
        -9_000_000_000_000_000 <= b <= 9_000_000_000_000_000,
    ensures
        abs_s(fmul_s(a, b)) <= 2 * abs_s(b) + 1,
{
    let s = SCALE as int;
    assert(-(2 * s * abs_s(b)) <= a * b <= 2 * s * abs_s(b)) by (nonlinear_arith)
        requires
            -2 * s <= a <= 2 * s,
            abs_s(b) == if b >= 0 {
                b
            } else {
                -b
            },
            0 <= abs_s(b),
    ;
    lemma_div_in_range(a * b, 2 * s * abs_s(b), s);
    assert((2 * s * abs_s(b)) / s == 2 * abs_s(b)) by (nonlinear_arith)
        requires
            s == SCALE as int,
            0 <= abs_s(b),
            SCALE == 1_000_000_000i64,
    ;
}

/// Rotating a near-unit vector by a near-unit rotor gives a near-unit
/// vector: the tolerance bands add, plus a fixed rounding allowance.
#[verifier::rlimit(60)]
pub proof fn lemma_rotate_unit_band(r: Rotor2, v: Vec2, w: Vec2, rt: int, ut: int)
    requires
        rotor_wf(r, rt),
        is_unit(v, ut),
        0 <= rt <= 6_000_000_000_000,
        0 <= ut <= 6_000_000_000_000,
        w == rotate_v_s(r, v),
    ensures
        is_unit(w, rt + ut + ROT_GROW),
        w.x == rot_x_s(r, v),
        w.y == rot_y_s(r, v),
{
    let s = SCALE as int;
    let c1 = r.c as int;
    let s1 = r.s as int;
    let x = v.x as int;
    let y = v.y as int;
    lemma_fmul_rot_bound(c1, x);
    lemma_fmul_rot_bound(s1, y);
    lemma_fmul_rot_bound(s1, x);
    lemma_fmul_rot_bound(c1, y);
    assert(w.x == rot_x_s(r, v) && w.y == rot_y_s(r, v));
    lemma_fundamental_div_mod(c1 * x, s);
    lemma_fundamental_div_mod(s1 * y, s);
    lemma_fundamental_div_mod(s1 * x, s);
    lemma_fundamental_div_mod(c1 * y, s);
    let ra = (c1 * x) % s;
    let rb = (s1 * y) % s;
    let rc = (s1 * x) % s;
    let rd = (c1 * y) % s;
    let wx = w.x as int;
    let wy = w.y as int;
    // the scaled results differ from the exact products by under one step
    assert(s * wx == c1 * x - s1 * y - ra + rb && s * wy == s1 * x + c1 * y - rc - rd)
        by (nonlinear_arith)
        requires
            wx == (c1 * x) / s - (s1 * y) / s,
            wy == (s1 * x) / s + (c1 * y) / s,
            c1 * x == s * ((c1 * x) / s) + ra,
            s1 * y == s * ((s1 * y) / s) + rb,
            s1 * x == s * ((s1 * x) / s) + rc,
            c1 * y == s * ((c1 * y) / s) + rd,
    ;
    let ea = rb - ra;
    let eb = -rc - rd;
    let aa = c1 * x - s1 * y;
    let bb = s1 * x + c1 * y;
    // the exact products obey the product-of-sums identity
    lemma_sum_of_squares_identity(c1, s1, x, y);
    assert(aa * aa + bb * bb == (c1 * c1 + s1 * s1) * (x * x + y * y));
    assert(-8 * (s * s) <= aa <= 8 * (s * s) && -8 * (s * s) <= bb <= 8 * (s * s))
        by (nonlinear_arith)
        requires
            aa == c1 * x - s1 * y,
            bb == s1 * x + c1 * y,
            -2 * s <= c1 <= 2 * s,
            -2 * s <= s1 <= 2 * s,
            -2 * s <= x <= 2 * s,
            -2 * s <= y <= 2 * s,
            0 < s,
    ;
    // the rounding terms move each square by at most a few cubes of the scale
    assert(aa * aa - 16 * (s * s * s) <= (aa + ea) * (aa + ea) <= aa * aa + 16 * (s * s * s) + s
        * s) by (nonlinear_arith)
        requires
            -8 * (s * s) <= aa <= 8 * (s * s),
            -s < ea < s,
            0 < s,
    ;
    assert(bb * bb - 32 * (s * s * s) <= (bb + eb) * (bb + eb) <= bb * bb + 32 * (s * s * s) + 4
        * (s * s)) by (nonlinear_arith)
        requires
            -8 * (s * s) <= bb <= 8 * (s * s),
            -2 * s <= eb <= 0,
            0 < s,
    ;
    // bracket the scaled squared length around the exact product of lengths
    assert((s * wx) * (s * wx) + (s * wy) * (s * wy) <= (c1 * c1 + s1 * s1) * (x * x + y * y) + 55
        * (s * s * s) && (s * wx) * (s * wx) + (s * wy) * (s * wy) >= (c1 * c1 + s1 * s1) * (x * x
        + y * y) - 55 * (s * s * s)) by (nonlinear_arith)
        requires
            s * wx == aa + ea,
            s * wy == bb + eb,
            aa * aa + bb * bb == (c1 * c1 + s1 * s1) * (x * x + y * y),
            aa * aa - 16 * (s * s * s) <= (aa + ea) * (aa + ea) <= aa * aa + 16 * (s * s * s) + s
                * s,
            bb * bb - 32 * (s * s * s) <= (bb + eb) * (bb + eb) <= bb * bb + 32 * (s * s * s) + 4
                * (s * s),
            s == 1_000_000_000int,
    ;
    // bracket the product of lengths with the tolerance bands
    assert((s * s) * ((s * s) - (rt + ut + ROT_GROW)) <= (s * wx) * (s * wx) + (s * wy) * (s * wy)
        <= (s * s) * ((s * s) + (rt + ut + ROT_GROW))) by (nonlinear_arith)
        requires
            (s * wx) * (s * wx) + (s * wy) * (s * wy) <= (c1 * c1 + s1 * s1) * (x * x + y * y) + 55
                * (s * s * s),
            (s * wx) * (s * wx) + (s * wy) * (s * wy) >= (c1 * c1 + s1 * s1) * (x * x + y * y) - 55
                * (s * s * s),
            s * s - rt <= c1 * c1 + s1 * s1 <= s * s + rt,
            s * s - ut <= x * x + y * y <= s * s + ut,
            0 <= rt <= 6_000_000_000_000,
            0 <= ut <= 6_000_000_000_000,
            s == 1_000_000_000int,
            ROT_GROW == 100_000_000_000i64,
    ;
    // divide by the square of the scale
    assert((s * s) - (rt + ut + ROT_GROW) <= wx * wx + wy * wy <= (s * s) + (rt + ut + ROT_GROW))
        by (nonlinear_arith)
        requires
            (s * s) * ((s * s) - (rt + ut + ROT_GROW)) <= (s * wx) * (s * wx) + (s * wy) * (s * wy)
                <= (s * s) * ((s * s) + (rt + ut + ROT_GROW)),
            0 < s,
    ;
    // component bound from the band
    assert(-2 * s <= wx <= 2 * s && -2 * s <= wy <= 2 * s) by (nonlinear_arith)
        requires
            wx * wx + wy * wy <= (s * s) + 15_000_000_000_000,
            s == 1_000_000_000int,
    ;
}

/// Composing two near-unit rotors gives a near-unit rotor: the complex
/// product obeys the same formulas as a rotation of the pair `(c, s)`.
pub proof fn lemma_rotor_comp_band(a: Rotor2, b: Rotor2, rt: int, ut: int)
    requires
        rotor_wf(a, rt),
        rotor_wf(b, ut),
        0 <= rt <= 6_000_000_000_000,
        0 <= ut <= 6_000_000_000_000,
    ensures
        rotor_wf(rotor_comp_s(a, b), rt + ut + ROT_GROW),
{
    let v = Vec2 { x: b.c, y: b.s };
    lemma_fmul_rot_bound(a.c as int, b.c as int);
    lemma_fmul_rot_bound(a.s as int, b.s as int);
    lemma_fmul_rot_bound(a.s as int, b.c as int);
    lemma_fmul_rot_bound(a.c as int, b.s as int);
    let w = rotate_v_s(a, v);
    assert(rot_x_s(a, v) == fmul_s(a.c as int, b.c as int) - fmul_s(a.s as int, b.s as int));
    assert(rot_y_s(a, v) == fmul_s(a.s as int, b.c as int) + fmul_s(a.c as int, b.s as int));
    lemma_rotate_unit_band(a, v, w, rt, ut);
    assert(rotor_comp_s(a, b).c == w.x && rotor_comp_s(a, b).s == w.y);
}

/// A rigid transform: rotate by `rotation`, then move by `translation`.
#[derive(Clone, Copy, Debug, PartialEq, Eq, Structural)]
pub struct Pose {
    pub translation: Vec2,
    pub rotation: Rotor2,
}

/// A well-formed input pose: near-unit rotor, translation within a thousand
/// world units.
pub open spec fn pose_wf(p: Pose, rot_tol: int, t_lim: int) -> bool {
    &&& rotor_wf(p.rotation, rot_tol)
    &&& -t_lim <= p.translation.x <= t_lim
    &&& -t_lim <= p.translation.y <= t_lim
}

impl Pose {
    pub fn new(translation: Vec2, rotation: Rotor2) -> (r: Pose)
        ensures
            r == (Pose { translation, rotation }),
    {
        Pose { translation, rotation }
    }

    pub fn identity() -> (r: Pose)
        ensures
            r.translation == (Vec2 { x: 0i64, y: 0i64 }),
            r.rotation == (Rotor2 { c: SCALE, s: 0i64 }),
            rotor_wf(r.rotation, 0),
    {
        Pose { translation: Vec2 { x: 0, y: 0 }, rotation: Rotor2 { c: SCALE, s: 0 } }
    }

    /// Apply the pose to a point: rotate, then translate. Exact.
    pub fn transform_point(self, p: Vec2) -> (r: Vec2)
        requires
            -2 * SCALE <= self.rotation.c <= 2 * SCALE,
            -2 * SCALE <= self.rotation.s <= 2 * SCALE,
            vec_wf(p),
            vec_wf(self.translation),
        ensures
            r.x == rot_x_s(self.rotation, p) + self.translation.x,
            r.y == rot_y_s(self.rotation, p) + self.translation.y,
            r == pose_pt_s(self, p),
            abs_s(r.x as int) <= 2 * abs_s(p.x as int) + 2 * abs_s(p.y as int) + 2 + abs_s(
                self.translation.x as int,
            ),
            abs_s(r.y as int) <= 2 * abs_s(p.x as int) + 2 * abs_s(p.y as int) + 2 + abs_s(
                self.translation.y as int,
            ),
    {
        let rotated = self.rotation.rotate(p);
        rotated.add(self.translation)
    }

    /// The inverse transform: the reversed rotor, and the negated
    /// translation carried through it. Exact.
    pub fn inversed(self) -> (r: Pose)
        requires
            -2 * SCALE <= self.rotation.c <= 2 * SCALE,
            self.rotation.s > i64::MIN,
            -2 * SCALE <= self.rotation.s <= 2 * SCALE,
            vec_wf(self.translation),
        ensures
            r.rotation.c == self.rotation.c,
            r.rotation.s == -self.rotation.s,
            r.translation.x == -rot_x_s(r.rotation, self.translation),
            r.translation.y == -rot_y_s(r.rotation, self.translation),
            r == pose_inv_s(self),
            forall|tol: int| rotor_wf(self.rotation, tol) ==> rotor_wf(r.rotation, tol),
            abs_s(r.translation.x as int) <= 2 * abs_s(self.translation.x as int) + 2 * abs_s(
                self.translation.y as int,
            ) + 2,
            abs_s(r.translation.y as int) <= 2 * abs_s(self.translation.x as int) + 2 * abs_s(
                self.translation.y as int,
            ) + 2,
    {
        let rev = self.rotation.reversed();
        let back = rev.rotate(self.translation);
        Pose { translation: back.neg(), rotation: rev }
    }

    /// The composite transform applying `o` first, then `self`. Exact.
    pub fn compose(self, o: Pose) -> (r: Pose)
        requires
            -2 * SCALE <= self.rotation.c <= 2 * SCALE,
            -2 * SCALE <= self.rotation.s <= 2 * SCALE,
            -2 * SCALE <= o.rotation.c <= 2 * SCALE,
            -2 * SCALE <= o.rotation.s <= 2 * SCALE,
            vec_wf(o.translation),
            vec_wf(self.translation),
        ensures
            r.rotation.c == fmul_s(self.rotation.c as int, o.rotation.c as int) - fmul_s(
                self.rotation.s as int,
                o.rotation.s as int,
            ),
            r.rotation.s == fmul_s(self.rotation.s as int, o.rotation.c as int) + fmul_s(
                self.rotation.c as int,
                o.rotation.s as int,
            ),
            r.translation.x == rot_x_s(self.rotation, o.translation) + self.translation.x,
            r.translation.y == rot_y_s(self.rotation, o.translation) + self.translation.y,
            r == pose_comp_s(self, o),
            abs_s(r.translation.x as int) <= 2 * abs_s(o.translation.x as int) + 2 * abs_s(
                o.translation.y as int,
            ) + 2 + abs_s(self.translation.x as int),
            abs_s(r.translation.y as int) <= 2 * abs_s(o.translation.x as int) + 2 * abs_s(
                o.translation.y as int,
            ) + 2 + abs_s(self.translation.y as int),
    {
        Pose {
            translation: self.transform_point(o.translation),
            rotation: self.rotation.compose(o.rotation),
        }
    }
}

} // verus!
