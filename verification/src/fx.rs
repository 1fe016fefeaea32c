//! Scalar arithmetic for the fixed-point coordinate system.
//!
//! Every executable operation here carries an exact contract phrased with
//! `tdiv`, the truncating division that Rust's `/` performs on signed
//! integers with a positive divisor.
use vstd::prelude::*;

verus! {

use crate::SCALE;

/// Largest magnitude accepted by `mul_fx`; keeps `a * b` inside `i128`.
pub const FX_MUL_BOUND: i128 = 0x4000_0000_0000_0000;

/// Largest numerator accepted by `div_fx`; keeps `a * SCALE` inside `i128`.
pub const FX_DIV_BOUND: i128 = 0x10_0000_0000_0000_0000_0000_0000;

/// Largest argument accepted by `isqrt`.
pub const FX_SQRT_BOUND: i128 = 0x1000_0000_0000_0000_0000_0000_0000_0000;

/// Absolute value over `int`.
pub open spec fn iabs(a: int) -> int {
    if a < 0 {
        -a
    } else {
        a
    }
}

/// Truncating division (toward zero), for a positive divisor: the value
/// Rust's `/` computes on signed integers.
pub open spec fn tdiv(a: int, b: int) -> int
    recommends
        b > 0,
{
    if a >= 0 {
        a / b
    } else {
        -((-a) / b)
    }
}

/// Product of two fixed-point scalars: `a * b` rescaled back down.
pub open spec fn spec_mul_fx(a: int, b: int) -> int {
    tdiv(a * b, SCALE as int)
}

/// Quotient of two fixed-point scalars: `a` rescaled up, divided by `b`.
pub open spec fn spec_div_fx(a: int, b: int) -> int
    recommends
        b != 0,
{
    if b > 0 {
        tdiv(a * SCALE, b)
    } else {
        tdiv(-(a * SCALE), -b)
    }
}

/// The integer square root: the unique `r >= 0` with `r * r <= n < (r + 1) * (r + 1)`.
/// Kept closed so its defining property enters a proof only through
/// `lemma_isqrt_unique` or `isqrt`'s contract.
pub closed spec fn spec_isqrt(n: int) -> int {
    choose|r: int| 0 <= r && #[trigger] (r * r) <= n && n < (r + 1) * (r + 1)
}

pub proof fn lemma_isqrt_unique(n: int, r: int)
    requires
        0 <= r,
        r * r <= n,
        n < (r + 1) * (r + 1),
    ensures
        spec_isqrt(n) == r,
{
    assert(0 <= r && r * r <= n && n < (r + 1) * (r + 1));
    let s = spec_isqrt(n);
    assert(0 <= s && s * s <= n && n < (s + 1) * (s + 1));
    assert(s == r) by (nonlinear_arith)
        requires
            0 <= r,
            r * r <= n,
            n < (r + 1) * (r + 1),
            0 <= s,
            s * s <= n,
            n < (s + 1) * (s + 1),
    ;
}

/// Division by a positive divisor shrinks magnitudes and respects order.
pub proof fn lemma_tdiv_bound(a: int, b: int, cap: int)
    requires
        b > 0,
        iabs(a) <= cap,
    ensures
        iabs(tdiv(a, b)) <= tdiv(cap, b),
        tdiv(cap, b) <= cap,
{
    assert(iabs(tdiv(a, b)) <= tdiv(cap, b) && tdiv(cap, b) <= cap) by (nonlinear_arith)
        requires
            b > 0,
            iabs(a) <= cap,
    ;
}

/// The magnitude of a plain product, from bounds on the factors.
pub proof fn lemma_abs_mul(a: int, b: int, ca: int, cb: int)
    requires
        iabs(a) <= ca,
        iabs(b) <= cb,
    ensures
        iabs(a * b) <= ca * cb,
{
    assert(iabs(a * b) <= ca * cb) by (nonlinear_arith)
        requires
            iabs(a) <= ca,
            iabs(b) <= cb,
    ;
}

/// The magnitude of a fixed-point product, from bounds on the factors.
pub proof fn lemma_mul_fx_bound(a: int, b: int, ca: int, cb: int)
    requires
        iabs(a) <= ca,
        iabs(b) <= cb,
    ensures
        iabs(spec_mul_fx(a, b)) <= tdiv(ca * cb, SCALE as int),
        tdiv(ca * cb, SCALE as int) <= ca * cb,
{
    assert(iabs(a * b) <= ca * cb) by (nonlinear_arith)
        requires
            iabs(a) <= ca,
            iabs(b) <= cb,
    ;
    lemma_tdiv_bound(a * b, SCALE as int, ca * cb);
}

/// Fixed-point multiplication.
pub fn mul_fx(a: i128, b: i128) -> (r: i128)
    requires
        iabs(a as int) <= FX_MUL_BOUND,
        iabs(b as int) <= FX_MUL_BOUND,
    ensures
        r == spec_mul_fx(a as int, b as int),
        iabs(r as int) <= iabs(a as int) * iabs(b as int),
{
    proof {
        assert(iabs(a as int * b as int) <= FX_MUL_BOUND * FX_MUL_BOUND) by (nonlinear_arith)
            requires
                iabs(a as int) <= FX_MUL_BOUND,
                iabs(b as int) <= FX_MUL_BOUND,
        ;
        lemma_mul_fx_bound(a as int, b as int, iabs(a as int), iabs(b as int));
    }
    (a * b) / SCALE
}

/// Fixed-point division by a positive divisor.
pub fn div_fx(a: i128, b: i128) -> (r: i128)
    requires
        iabs(a as int) <= FX_DIV_BOUND,
        0 < b,
    ensures
        r == spec_div_fx(a as int, b as int),
        iabs(r as int) <= iabs(a as int) * SCALE,
{
    proof {
        assert(iabs(a as int * SCALE) <= FX_DIV_BOUND * SCALE) by (nonlinear_arith)
            requires
                iabs(a as int) <= FX_DIV_BOUND,
        ;
        lemma_tdiv_bound(a as int * SCALE, b as int, iabs(a as int) * SCALE as int);
        assert(iabs(a as int) * SCALE <= FX_DIV_BOUND * SCALE) by (nonlinear_arith)
            requires
                iabs(a as int) <= FX_DIV_BOUND,
        ;
    }
    (a * SCALE) / b
}

/// Integer square root by bisection.
pub fn isqrt(n: i128) -> (r: i128)
    requires
        0 <= n <= FX_SQRT_BOUND,
    ensures
        r == spec_isqrt(n as int),
        0 <= r,
        r * r <= n,
        n < (r + 1) * (r + 1),
{
    let mut lo: i128 = 0;
    let mut hi: i128 = FX_MUL_BOUND + 1;
    proof {
        assert((FX_MUL_BOUND + 1) * (FX_MUL_BOUND + 1) > FX_SQRT_BOUND as int) by (nonlinear_arith);
    }
    while lo + 1 < hi
        invariant
            0 <= lo < hi <= FX_MUL_BOUND + 1,
            lo * lo <= n,
            n < hi * hi,
        decreases hi - lo,
    {
        let mid: i128 = lo + (hi - lo) / 2;
        assert(lo < mid < hi);
        assert(mid * mid <= FX_MUL_BOUND * FX_MUL_BOUND) by (nonlinear_arith)
            requires
                0 < mid <= FX_MUL_BOUND,
        ;
        assert(FX_MUL_BOUND * FX_MUL_BOUND < 0x8000_0000_0000_0000_0000_0000_0000_0000int)
            by (nonlinear_arith);
        if mid * mid <= n {
            lo = mid;
        } else {
            hi = mid;
        }
    }
    proof {
        lemma_isqrt_unique(n as int, lo as int);
    }
    lo
}

/// The fixed-point power `b ^ e`, for a unit-interval-scale base.
pub open spec fn spec_powi(b: int, e: nat) -> int
    decreases e,
{
    if e == 0 {
        SCALE as int
    } else {
        spec_mul_fx(spec_powi(b, (e - 1) as nat), b)
    }
}

/// The fixed-point power of a base within `[-SCALE, SCALE]`.
pub fn pow_fx(b: i128, e: u32) -> (r: i128)
    requires
        iabs(b as int) <= SCALE,
    ensures
        r == spec_powi(b as int, e as nat),
        iabs(r as int) <= SCALE,
{
    let mut acc: i128 = SCALE;
    let mut i: u32 = 0;
    while i < e
        invariant
            0 <= i <= e,
            iabs(b as int) <= SCALE,
            acc == spec_powi(b as int, i as nat),
            iabs(acc as int) <= SCALE,
        decreases e - i,
    {
        proof {
            lemma_mul_fx_bound(acc as int, b as int, SCALE as int, SCALE as int);
            assert(tdiv(SCALE as int * SCALE as int, SCALE as int) == SCALE as int)
                by (nonlinear_arith)
                requires
                    SCALE as int == 65536,
            ;
        }
        acc = mul_fx(acc, b);
        i += 1;
    }
    acc
}

} // verus!
