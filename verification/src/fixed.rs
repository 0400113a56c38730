//! Fixed-point arithmetic for world coordinates.
//!
//! A maze-cell unit is `FP_ONE` fixed-point units; every coordinate,
//! distance and direction component in the engine is an `i64` in this
//! scale. Products are rescaled with truncation toward zero, the same
//! rounding a float-to-integer cast performs.

use vstd::prelude::*;

verus! {

/// Number of fixed-point units in one maze-cell unit.
pub const FP_ONE: i64 = 65536;

/// Half of a cell in fixed-point units.
pub const FP_HALF: i64 = 32768;

/// Largest magnitude the fixed-point helpers accept; the product of two
/// such values still fits in an `i64`.
pub const FP_ABS_LIMIT: i64 = 2147483648;

/// Quotient of `p` by `FP_ONE`, truncated toward zero.
pub open spec fn fp_trunc(p: int) -> int {
    if p >= 0 {
        p / (FP_ONE as int)
    } else {
        -((-p) / (FP_ONE as int))
    }
}

/// Product of two fixed-point values, rescaled back with truncation
/// toward zero.
pub open spec fn fp_mul_spec(a: int, b: int) -> int {
    fp_trunc(a * b)
}

/// Fractional part of a fixed-point value, keeping the sign of `p`
/// (`p == fp_trunc(p) * FP_ONE + fp_fract(p)`).
pub open spec fn fp_fract(p: int) -> int {
    p - fp_trunc(p) * (FP_ONE as int)
}

/// Cell index of a fixed-point coordinate: the integer part, truncated
/// toward zero.
pub fn fp_cell(v: i64) -> (r: i64)
    requires
        i64::MIN < v,
    ensures
        r == fp_trunc(v as int),
{
    if v >= 0 {
        ((v as u64) / 65536u64) as i64
    } else {
        let m: u64 = (-v) as u64;
        let q: u64 = m / 65536u64;
        proof {
            assert(m == -(v as int));
            assert(q <= m) by (nonlinear_arith)
                requires q == m as int / 65536int && m >= 0;
        }
        -(q as i64)
    }
}

/// Fractional part of a fixed-point coordinate, keeping its sign.
pub fn fp_frac(v: i64) -> (r: i64)
    requires
        i64::MIN < v,
    ensures
        r == fp_fract(v as int),
        -FP_ONE < r < FP_ONE,
{
    if v >= 0 {
        let m: u64 = (v as u64) % 65536u64;
        proof {
            assert(v as int % 65536int == v as int - (v as int / 65536int) * 65536int)
                by (nonlinear_arith);
        }
        m as i64
    } else {
        let m: u64 = ((-v) as u64) % 65536u64;
        proof {
            let p: int = -(v as int);
            assert(p % 65536int == p - (p / 65536int) * 65536int) by (nonlinear_arith);
        }
        -(m as i64)
    }
}

/// Fixed-point product with rescaling, truncated toward zero.
pub fn fp_mul(a: i64, b: i64) -> (r: i64)
    requires
        -FP_ABS_LIMIT <= a <= FP_ABS_LIMIT,
        -FP_ABS_LIMIT <= b <= FP_ABS_LIMIT,
    ensures
        r == fp_mul_spec(a as int, b as int),
{
    let ma: u64 = if a < 0 { (-a) as u64 } else { a as u64 };
    let mb: u64 = if b < 0 { (-b) as u64 } else { b as u64 };
    proof {
        assert(ma as int * mb as int <= 0x4000_0000_0000_0000) by (nonlinear_arith)
            requires ma <= 0x8000_0000u64 && mb <= 0x8000_0000u64;
        assert(ma as int * mb as int == vstd::math::abs(a as int * b as int))
            by (nonlinear_arith)
            requires
                ma as int == vstd::math::abs(a as int),
                mb as int == vstd::math::abs(b as int),
        ;
    }
    let q: u64 = (ma * mb) / 65536u64;
    proof {
        assert(q <= ma as int * mb as int) by (nonlinear_arith)
            requires q == (ma as int * mb as int) / 65536int && ma as int * mb as int >= 0;
        assert((((a as int) >= 0 && (b as int) >= 0) || ((a as int) < 0 && (b as int) < 0))
            ==> a as int * b as int >= 0) by (nonlinear_arith);
        assert((((a as int) >= 0 && (b as int) < 0) || ((a as int) < 0 && (b as int) >= 0))
            ==> a as int * b as int <= 0) by (nonlinear_arith);
    }
    if (a < 0) == (b < 0) {
        q as i64
    } else {
        -(q as i64)
    }
}

/// Scaling by exactly one leaves a fixed-point value unchanged.
pub proof fn lemma_fp_mul_one(a: int)
    ensures
        fp_mul_spec(a, FP_ONE as int) == a,
{
    if a >= 0 {
        assert(a * (FP_ONE as int) >= 0) by (nonlinear_arith)
            requires a >= 0;
        vstd::arithmetic::div_mod::lemma_div_multiples_vanish(a, FP_ONE as int);
        assert((FP_ONE as int) * a == a * (FP_ONE as int)) by (nonlinear_arith);
    } else {
        assert(a * (FP_ONE as int) < 0) by (nonlinear_arith)
            requires a < 0;
        assert(-(a * (FP_ONE as int)) == (-a) * (FP_ONE as int)) by (nonlinear_arith);
        vstd::arithmetic::div_mod::lemma_div_multiples_vanish(-a, FP_ONE as int);
        assert((FP_ONE as int) * (-a) == (-a) * (FP_ONE as int)) by (nonlinear_arith);
    }
}

/// Scaling a nonnegative value by a factor of at most one cannot grow it
/// or change its sign.
pub proof fn lemma_fp_mul_le_arg(d: int, c: int)
    requires
        0 <= d,
        0 <= c <= FP_ONE as int,
    ensures
        0 <= fp_mul_spec(d, c) <= d,
{
    let p = d * c;
    assert(0 <= d * c <= d * (FP_ONE as int)) by (nonlinear_arith)
        requires 0 <= d && 0 <= c <= FP_ONE as int;
    vstd::arithmetic::div_mod::lemma_div_is_ordered(p, d * (FP_ONE as int), FP_ONE as int);
    vstd::arithmetic::div_mod::lemma_div_multiples_vanish(d, FP_ONE as int);
    assert((FP_ONE as int) * d == d * (FP_ONE as int)) by (nonlinear_arith);
    vstd::arithmetic::div_mod::lemma_div_pos_is_pos(p, FP_ONE as int);
}

/// A rescaled product is bounded by the product of bounds on its factors:
/// from `|a| <= ba` and `|b| <= bb` follows
/// `|fp_mul_spec(a, b)| <= ba * bb / FP_ONE`.
pub proof fn lemma_fp_mul_bounded(a: int, b: int, ba: int, bb: int)
    requires
        vstd::math::abs(a) <= ba,
        vstd::math::abs(b) <= bb,
    ensures
        vstd::math::abs(fp_mul_spec(a, b)) <= ba * bb / (FP_ONE as int),
{
    let p = a * b;
    let aa = vstd::math::abs(a) as int;
    let ab = vstd::math::abs(b) as int;
    let ap = vstd::math::abs(p) as int;
    assert(aa == a || aa == -a);
    assert(ab == b || ab == -b);
    assert(ap == p || ap == -p);
    assert(ap == aa * ab) by (nonlinear_arith)
        requires
            (aa == a || aa == -a),
            (ab == b || ab == -b),
            (ap == a * b || ap == -(a * b)),
            aa >= 0,
            ab >= 0,
            ap >= 0,
    ;
    assert(aa * ab <= ba * bb) by (nonlinear_arith)
        requires
            0 <= aa <= ba,
            0 <= ab <= bb,
    ;
    if p >= 0 {
        vstd::arithmetic::div_mod::lemma_div_pos_is_pos(p, FP_ONE as int);
    } else {
        vstd::arithmetic::div_mod::lemma_div_pos_is_pos(-p, FP_ONE as int);
    }
    assert(vstd::math::abs(fp_mul_spec(a, b)) == (vstd::math::abs(p) as int) / (FP_ONE as int));
    vstd::arithmetic::div_mod::lemma_div_is_ordered(
        vstd::math::abs(p) as int, ba * bb, FP_ONE as int);
}

/// Integer quotient of two nonnegative values.
pub fn div_nonneg(a: i64, b: i64) -> (r: i64)
    requires
        0 <= a,
        0 < b,
    ensures
        r == a as int / b as int,
{
    let q: u64 = (a as u64) / (b as u64);
    proof {
        assert(q <= a) by (nonlinear_arith)
            requires q == a as int / b as int && a >= 0 && b >= 1;
    }
    q as i64
}

} // verus!
