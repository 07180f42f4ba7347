//! Fixed-point scale constants and exact integer division helpers.
//!
//! Normalized quantities (color channels in `[0, 1]`, interpolation
//! parameters, texture coordinates, reciprocal depths) are stored as `i64`
//! values scaled by [`FX_ONE`].  The helpers here give the three rounding
//! modes the rasterizer needs — floor, ceiling and round-to-nearest — each
//! with an exact contract.

use vstd::prelude::*;

verus! {

use vstd::arithmetic::div_mod::lemma_fundamental_div_mod;
use vstd::arithmetic::div_mod::lemma_fundamental_div_mod_converse;
use vstd::arithmetic::mul::lemma_mul_unary_negation;

/// The fixed-point representation of 1.0.
pub const FX_ONE: i64 = 65536;

/// The fixed-point representation of 1/2.
pub const FX_HALF: i64 = 32768;

/// Magnitude bound accepted by the division helpers; comfortably larger
/// than any intermediate value the rasterizer produces, while keeping all
/// arithmetic inside `i64`.
pub const DIV_LIMIT: i64 = 0x2000_0000_0000_0000;

/// Bounds on two factors bound their product; the workhorse for showing
/// that intermediate products stay inside `i64`.
pub proof fn lemma_mul_bound(x: int, xb: int, y: int, yb: int)
    by (nonlinear_arith)
    requires
        -xb <= x <= xb,
        -yb <= y <= yb,
        0 <= xb,
        0 <= yb,
    ensures
        -(xb * yb) <= x * y <= xb * yb,
{
}

/// Floor division by a positive divisor: the largest integer at most `a / b`.
///
/// In specifications, `/` on `int` is Euclidean division, which for a
/// positive divisor is exactly the floor of the rational quotient.
pub fn div_floor(a: i64, b: i64) -> (q: i64)
    requires
        1 <= b <= DIV_LIMIT,
        -DIV_LIMIT <= a <= DIV_LIMIT,
    ensures
        q == a as int / b as int,
        b * q <= a < b * (q + 1),
        -DIV_LIMIT <= q <= DIV_LIMIT,
{
    let q = if a >= 0 {
        a / b
    } else {
        let m = -a;
        let t = (m + b - 1) / b;
        proof {
            let mi = m as int;
            let bi = b as int;
            lemma_fundamental_div_mod(mi, bi);
            lemma_fundamental_div_mod(mi + bi - 1, bi);
            let qm = mi / bi;
            let rm = mi % bi;
            if rm == 0 {
                assert(mi + bi - 1 == qm * bi + (bi - 1) && -mi == -qm * bi + 0)
                    by (nonlinear_arith)
                    requires
                        mi == bi * qm + rm,
                        rm == 0,
                {}
                lemma_fundamental_div_mod_converse(mi + bi - 1, bi, qm, bi - 1);
                lemma_fundamental_div_mod_converse(-mi, bi, -qm, 0);
            } else {
                assert(mi + bi - 1 == (qm + 1) * bi + (rm - 1) && -mi == (-qm - 1) * bi + (bi
                    - rm)) by (nonlinear_arith)
                    requires
                        mi == bi * qm + rm,
                {}
                lemma_fundamental_div_mod_converse(mi + bi - 1, bi, qm + 1, rm - 1);
                lemma_fundamental_div_mod_converse(-mi, bi, -qm - 1, bi - rm);
            }
        }
        -t
    };
    proof {
        lemma_fundamental_div_mod(a as int, b as int);
        assert(b * q <= a < b * (q + 1)) by (nonlinear_arith)
            requires
                (a as int) == (b as int) * ((a as int) / (b as int)) + (a as int) % (b as int),
                0 <= (a as int) % (b as int) < b,
                q == (a as int) / (b as int),
                1 <= b,
        {}
        assert(-DIV_LIMIT <= q <= DIV_LIMIT) by (nonlinear_arith)
            requires
                b * q <= a < b * (q + 1),
                1 <= b,
                -DIV_LIMIT <= a <= DIV_LIMIT,
        {}
    }
    q
}

/// Magnitude bound accepted by the wide division helper.
pub const DIV_LIMIT_WIDE: i128 = 0x2000_0000_0000_0000_0000_0000_0000_0000;

/// Floor division on 128-bit operands, for the perspective-correct
/// interpolation whose numerators outgrow `i64`.
pub fn div_floor_wide(a: i128, b: i128) -> (q: i128)
    requires
        1 <= b <= DIV_LIMIT_WIDE,
        -DIV_LIMIT_WIDE <= a <= DIV_LIMIT_WIDE,
    ensures
        q == a as int / b as int,
        b * q <= a < b * (q + 1),
        -DIV_LIMIT_WIDE <= q <= DIV_LIMIT_WIDE,
{
    let q = if a >= 0 {
        a / b
    } else {
        let m = -a;
        let t = (m + b - 1) / b;
        proof {
            let mi = m as int;
            let bi = b as int;
            lemma_fundamental_div_mod(mi, bi);
            lemma_fundamental_div_mod(mi + bi - 1, bi);
            let qm = mi / bi;
            let rm = mi % bi;
            if rm == 0 {
                assert(mi + bi - 1 == qm * bi + (bi - 1) && -mi == -qm * bi + 0)
                    by (nonlinear_arith)
                    requires
                        mi == bi * qm + rm,
                        rm == 0,
                {}
                lemma_fundamental_div_mod_converse(mi + bi - 1, bi, qm, bi - 1);
                lemma_fundamental_div_mod_converse(-mi, bi, -qm, 0);
            } else {
                assert(mi + bi - 1 == (qm + 1) * bi + (rm - 1) && -mi == (-qm - 1) * bi + (bi
                    - rm)) by (nonlinear_arith)
                    requires
                        mi == bi * qm + rm,
                {}
                lemma_fundamental_div_mod_converse(mi + bi - 1, bi, qm + 1, rm - 1);
                lemma_fundamental_div_mod_converse(-mi, bi, -qm - 1, bi - rm);
            }
        }
        -t
    };
    proof {
        lemma_fundamental_div_mod(a as int, b as int);
        assert(b * q <= a < b * (q + 1)) by (nonlinear_arith)
            requires
                (a as int) == (b as int) * ((a as int) / (b as int)) + (a as int) % (b as int),
                0 <= (a as int) % (b as int) < b,
                q == (a as int) / (b as int),
                1 <= b,
        {}
        assert(-DIV_LIMIT_WIDE <= q <= DIV_LIMIT_WIDE) by (nonlinear_arith)
            requires
                b * q <= a < b * (q + 1),
                1 <= b,
                -DIV_LIMIT_WIDE <= a <= DIV_LIMIT_WIDE,
        {}
    }
    q
}

/// Ceiling division by a positive divisor: the smallest integer at least `a / b`.
pub fn div_ceil(a: i64, b: i64) -> (q: i64)
    requires
        1 <= b <= DIV_LIMIT,
        -DIV_LIMIT <= a <= DIV_LIMIT,
    ensures
        q == -((-a) as int / b as int),
        b * (q - 1) < a <= b * q,
        -DIV_LIMIT <= q <= DIV_LIMIT,
{
    let n = div_floor(-a, b);
    proof {
        lemma_mul_unary_negation(b as int, n as int);
        lemma_mul_unary_negation(b as int, n as int + 1);
    }
    -n
}

/// `a / b` rounded to the nearest integer, halves away from zero.
pub open spec fn spec_div_round(a: int, b: int) -> int {
    if a >= 0 {
        (2 * a + b) / (2 * b)
    } else {
        -((2 * -a + b) / (2 * b))
    }
}

/// Division by a positive divisor rounded to the nearest integer, with
/// halves rounded away from zero.
pub fn div_round(a: i64, b: i64) -> (q: i64)
    requires
        1 <= b <= DIV_LIMIT / 2,
        -DIV_LIMIT / 2 <= a <= DIV_LIMIT / 2,
    ensures
        q == spec_div_round(a as int, b as int),
{
    if a >= 0 {
        (2 * a + b) / (2 * b)
    } else {
        let t = (2 * -a + b) / (2 * b);
        proof {
            vstd::arithmetic::div_mod::lemma_div_pos_is_pos(2 * -a as int + b, 2 * b as int);
        }
        -t
    }
}

/// Rounding a rational that lies between two scaled bounds lands between
/// the bounds.
proof fn lemma_div_round_range_nn(n: int, h: int, lo: int, hi: int)
    requires
        0 <= n,
        1 <= h,
        lo * h <= n <= hi * h,
    ensures
        lo <= (2 * n + h) / (2 * h) <= hi,
{
    let d2 = 2 * h;
    assert(lo * d2 <= 2 * n + h) by (nonlinear_arith)
        requires
            lo * h <= n,
            1 <= h,
            d2 == 2 * h,
    ;
    vstd::arithmetic::div_mod::lemma_div_is_ordered(lo * d2, 2 * n + h, d2);
    vstd::arithmetic::div_mod::lemma_div_multiples_vanish(lo, d2);
    assert(lo * d2 == d2 * lo) by (nonlinear_arith);
    assert(2 * n + h <= (hi + 1) * d2 - 1) by (nonlinear_arith)
        requires
            n <= hi * h,
            1 <= h,
            d2 == 2 * h,
    ;
    vstd::arithmetic::div_mod::lemma_div_is_ordered(2 * n + h, (hi + 1) * d2 - 1, d2);
    assert((hi + 1) * d2 - 1 == hi * d2 + (d2 - 1)) by (nonlinear_arith);
    lemma_fundamental_div_mod_converse((hi + 1) * d2 - 1, d2, hi, d2
        - 1);
}

/// [`spec_div_round`] of a rational between two scaled
/// bounds lands between the bounds.
pub(crate) proof fn lemma_div_round_range(n: int, h: int, lo: int, hi: int)
    requires
        1 <= h,
        lo * h <= n <= hi * h,
    ensures
        lo <= spec_div_round(n, h) <= hi,
{
    if n >= 0 {
        lemma_div_round_range_nn(n, h, lo, hi);
    } else {
        assert((-hi) * h <= -n <= (-lo) * h) by (nonlinear_arith)
            requires
                lo * h <= n <= hi * h,
        ;
        lemma_div_round_range_nn(-n, h, -hi, -lo);
    }
}


} // verus!
