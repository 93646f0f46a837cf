//! Fixed-point scalars for the simulation.
//!
//! A scalar holds `SCALE` raw steps per world unit in an `i64`. All products
//! and quotients are computed exactly in `i128` and rounded with Euclidean
//! (floor-for-positive-divisor) division, so every operation is a pure
//! function of its operands and results are bit-identical across runs.

use vstd::arithmetic::div_mod::{
    lemma_div_is_ordered, lemma_div_pos_is_pos, lemma_fundamental_div_mod,
    lemma_fundamental_div_mod_converse,
};
use vstd::prelude::*;

verus! {

/// Raw steps per world unit.
pub const SCALE: i64 = 1_000_000_000;

/// Product bound under which `fmul` cannot overflow an `i64` result.
pub const FMUL_PROD_LIM: i128 = 9_000_000_000_000_000_000_000_000_000;

/// Well-formedness bound for simulation coordinates.
pub const COORD_LIM: i64 = 300_000_000_000_000;

/// Largest argument `isqrt` accepts.
pub const SQ_LIM: i128 = 200_000_000_000_000_000_000_000_000_000;

/// Initial upper bracket of the `isqrt` search; its square exceeds `SQ_LIM`.
pub const ISQRT_HI: i64 = 500_000_000_000_000;

/// The fixed-point product: the exact integer product, descaled with
/// floor rounding.
pub open spec fn fmul_s(a: int, b: int) -> int {
    (a * b) / (SCALE as int)
}

/// The fixed-point quotient: the dividend rescaled exactly, then divided
/// with Euclidean rounding.
pub open spec fn fdiv_s(a: int, b: int) -> int {
    (a * SCALE) / b
}

pub open spec fn abs_s(a: int) -> int {
    if a >= 0 {
        a
    } else {
        -a
    }
}

/// `|a*b| <= m*m` whenever both factors lie within `m`.
proof fn lemma_mul_bound(a: int, b: int, m: int)
    requires
        0 <= m,
        -m <= a <= m,
        -m <= b <= m,
    ensures
        -(m * m) <= a * b <= m * m,
{
    assert(-(m * m) <= a * b <= m * m) by (nonlinear_arith)
        requires
            0 <= m,
            -m <= a <= m,
            -m <= b <= m,
    ;
}

/// A Euclidean quotient by a positive divisor stays within the bound of its
/// dividend, up to one step below on the negative side.
pub proof fn lemma_div_in_range(a: int, bound: int, d: int)
    requires
        d >= 1,
        0 <= bound,
        -bound <= a <= bound,
    ensures
        -(bound / d) - 1 <= a / d <= bound / d,
{
    lemma_div_is_ordered(a, bound, d);
    lemma_fundamental_div_mod(bound, d);
    let q = bound / d;
    let r = bound % d;
    if r == 0 {
        assert(-bound == (-q) * d + 0) by (nonlinear_arith)
            requires
                bound == q * d + r,
                r == 0,
        ;
        lemma_fundamental_div_mod_converse(-bound, d, -q, 0);
    } else {
        assert(-bound == (-q - 1) * d + (d - r)) by (nonlinear_arith)
            requires
                bound == q * d + r,
        ;
        lemma_fundamental_div_mod_converse(-bound, d, -q - 1, d - r);
    }
    lemma_div_is_ordered(-bound, a, d);
}

/// Multiply two fixed-point scalars; the result is the floor-rounded
/// descaled product. The exact product must stay within `FMUL_PROD_LIM`,
/// which the caller knows from its own bounds on the factors.
pub fn fmul(a: i64, b: i64) -> (r: i64)
    requires
        -FMUL_PROD_LIM <= a * b <= FMUL_PROD_LIM,
    ensures
        r == fmul_s(a as int, b as int),
        -9_000_000_000_000_000_000 <= r <= 9_000_000_000_000_000_000,
{
    let p: i128 = (a as i128) * (b as i128);
    proof {
        lemma_div_in_range(p as int, FMUL_PROD_LIM as int, SCALE as int);
    }
    let q: i128 = p.checked_div_euclid(SCALE as i128).unwrap();
    q as i64
}

/// `|a*b| <= aa*bb` whenever the factors lie within `aa` and `bb`.
pub proof fn lemma_prod_bound(a: int, b: int, aa: int, bb: int)
    requires
        0 <= aa,
        0 <= bb,
        -aa <= a <= aa,
        -bb <= b <= bb,
    ensures
        -(aa * bb) <= a * b <= aa * bb,
{
    assert(-(aa * bb) <= a * b <= aa * bb) by (nonlinear_arith)
        requires
            0 <= aa,
            0 <= bb,
            -aa <= a <= aa,
            -bb <= b <= bb,
    ;
}

/// Divide two fixed-point scalars by a positive divisor; the result is the
/// floor quotient of the exactly rescaled dividend. The quotient must fit
/// the scalar range, which the caller knows from its own bounds on `a`.
pub fn fdiv(a: i64, b: i64) -> (r: i64)
    requires
        b > 0,
        i64::MIN <= fdiv_s(a as int, b as int) <= i64::MAX,
    ensures
        r == fdiv_s(a as int, b as int),
{
    let p: i128 = (a as i128) * (SCALE as i128);
    let q: i128 = p.checked_div_euclid(b as i128).unwrap();
    q as i64
}

/// The fixed-point quotient with truncating (toward-zero) rounding, clamped
/// into the scalar range: for ray and clip parameters whose divisor may have
/// either sign and may be tiny.
pub open spec fn fdiv_sat_s(a: int, b: int) -> int {
    let q = abs_s(a * SCALE) / abs_s(b);
    let signed = if (a >= 0) == (b >= 0) {
        q
    } else {
        -q
    };
    if signed > i64::MAX {
        i64::MAX as int
    } else if signed < i64::MIN {
        i64::MIN as int
    } else {
        signed
    }
}

/// Divide two fixed-point scalars, truncating toward zero and saturating at
/// the scalar range.
pub fn fdiv_sat(a: i64, b: i64) -> (r: i64)
    requires
        b != 0,
    ensures
        r == fdiv_sat_s(a as int, b as int),
{
    let p: i128 = (a as i128) * (SCALE as i128);
    proof {
        assert(-10_000_000_000_000_000_000_000_000_000 <= (a as int) * (SCALE as int)
            <= 10_000_000_000_000_000_000_000_000_000) by (nonlinear_arith)
            requires
                -9_223_372_036_854_775_808 <= a as int <= 9_223_372_036_854_775_807,
                SCALE == 1_000_000_000i64,
        ;
    }
    let pa: i128 = if p < 0 {
        -p
    } else {
        p
    };
    let ba: i128 = if b < 0 {
        -(b as i128)
    } else {
        b as i128
    };
    proof {
        lemma_div_pos_is_pos(pa as int, ba as int);
        lemma_div_is_ordered(pa as int, 10_000_000_000_000_000_000_000_000_000int, ba as int);
    }
    let q0: i128 = pa.checked_div_euclid(ba).unwrap();
    let signed: i128 = if (a >= 0) == (b >= 0) {
        q0
    } else {
        -q0
    };
    proof {
        assert(abs_s(p as int) == abs_s(a as int * SCALE as int) && abs_s(ba as int) == abs_s(
            b as int,
        ));
    }
    if signed > i64::MAX as i128 {
        i64::MAX
    } else if signed < i64::MIN as i128 {
        i64::MIN
    } else {
        signed as i64
    }
}

/// The integer square root, defined by running up from zero.
pub open spec fn sqrt_floor(n: int) -> int
    decreases n,
{
    if n <= 0 {
        0
    } else {
        let r = sqrt_floor(n - 1);
        if (r + 1) * (r + 1) <= n {
            r + 1
        } else {
            r
        }
    }
}

pub proof fn lemma_sqrt_floor_bounds(n: int)
    requires
        0 <= n,
    ensures
        0 <= sqrt_floor(n),
        sqrt_floor(n) * sqrt_floor(n) <= n,
        n < (sqrt_floor(n) + 1) * (sqrt_floor(n) + 1),
    decreases n,
{
    if n == 0 {
        assert(sqrt_floor(0) == 0);
    } else {
        lemma_sqrt_floor_bounds(n - 1);
        let r = sqrt_floor(n - 1);
        if (r + 1) * (r + 1) <= n {
            assert(n - 1 < (r + 1) * (r + 1));
            assert(n < (r + 2) * (r + 2)) by (nonlinear_arith)
                requires
                    0 <= r,
                    n <= (r + 1) * (r + 1),
            ;
        }
    }
}

/// Any integer whose square brackets `n` is the square root of `n`.
pub proof fn lemma_sqrt_floor_unique(n: int, r: int)
    requires
        0 <= n,
        0 <= r,
        r * r <= n,
        n < (r + 1) * (r + 1),
    ensures
        r == sqrt_floor(n),
{
    lemma_sqrt_floor_bounds(n);
    let s = sqrt_floor(n);
    if r < s {
        assert((r + 1) * (r + 1) <= s * s) by (nonlinear_arith)
            requires
                0 <= r,
                r + 1 <= s,
        ;
    }
    if s < r {
        assert((s + 1) * (s + 1) <= r * r) by (nonlinear_arith)
            requires
                0 <= s,
                s + 1 <= r,
        ;
    }
}

/// The integer square root, by bisection.
pub fn isqrt(n: i128) -> (r: i64)
    requires
        0 <= n <= SQ_LIM,
    ensures
        0 <= r,
        r == sqrt_floor(n as int),
        r * r <= n < (r + 1) * (r + 1),
{
    let mut lo: i64 = 0;
    let mut hi: i64 = ISQRT_HI;
    proof {
        assert((ISQRT_HI as int) * (ISQRT_HI as int) > SQ_LIM as int);
    }
    while lo + 1 < hi
        invariant
            0 <= lo < hi <= ISQRT_HI,
            (lo as int) * (lo as int) <= n as int,
            (n as int) < (hi as int) * (hi as int),
        decreases hi - lo,
    {
        let mid: i64 = lo + (hi - lo) / 2;
        proof {
            lemma_mul_bound(mid as int, mid as int, ISQRT_HI as int);
        }
        let sq: i128 = (mid as i128) * (mid as i128);
        if sq <= n {
            lo = mid;
        } else {
            hi = mid;
        }
    }
    proof {
        lemma_sqrt_floor_unique(n as int, lo as int);
    }
    lo
}

/// Absolute value.
pub fn iabs(a: i64) -> (r: i64)
    requires
        a > i64::MIN,
    ensures
        r == abs_s(a as int),
{
    if a >= 0 {
        a
    } else {
        -a
    }
}

/// Clamp into a closed interval.
pub fn iclamp(a: i64, lo: i64, hi: i64) -> (r: i64)
    requires
        lo <= hi,
    ensures
        r == clamp_s(a as int, lo as int, hi as int),
{
    if a < lo {
        lo
    } else if a > hi {
        hi
    } else {
        a
    }
}

pub open spec fn clamp_s(a: int, lo: int, hi: int) -> int {
    if a < lo {
        lo
    } else if a > hi {
        hi
    } else {
        a
    }
}

} // verus!
