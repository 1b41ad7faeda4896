//! Fixed-point scalar arithmetic.
//!
//! A scene coordinate is stored as an `i64` holding the value scaled by
//! [`FX_SCALE`]. Every operation saturates to the symmetric range
//! `[-i64::MAX, i64::MAX]` (the range is symmetric so that negation is
//! always exact on produced values) and divisions truncate toward zero.
//! Each executable operation is proved equal to its spec-level model.

use vstd::prelude::*;

verus! {

/// One scene unit, as stored in an `i64`.
pub const FX_SCALE: i64 = 1_000_000;

/// Saturation bound: every produced scalar lies in `[-FX_CLIP_MAX, FX_CLIP_MAX]`.
pub const FX_CLIP_MAX: i64 = 0x7fff_ffff_ffff_ffff;

/// Clamp an unbounded integer into the symmetric representable range.
pub open spec fn clip(x: int) -> int {
    if x > FX_CLIP_MAX as int {
        FX_CLIP_MAX as int
    } else if x < -(FX_CLIP_MAX as int) {
        -(FX_CLIP_MAX as int)
    } else {
        x
    }
}

/// Division truncating toward zero (the rounding of machine division),
/// for a positive divisor.
pub open spec fn tdiv(a: int, b: int) -> int
    recommends
        b > 0,
{
    if a >= 0 {
        a / b
    } else {
        -((-a) / b)
    }
}

/// Saturating addition.
pub open spec fn s_add(a: int, b: int) -> int {
    clip(a + b)
}

/// Saturating subtraction.
pub open spec fn s_sub(a: int, b: int) -> int {
    clip(a - b)
}

/// Fixed-point multiplication: the product rescaled, truncated, saturated.
pub open spec fn s_fmul(a: int, b: int) -> int {
    clip(tdiv(a * b, FX_SCALE as int))
}

/// Fixed-point division: zero on a non-positive divisor, otherwise the
/// rescaled truncated quotient, saturated.
pub open spec fn s_fdiv(a: int, b: int) -> int {
    if b <= 0 {
        0
    } else {
        clip(tdiv(a * (FX_SCALE as int), b))
    }
}

/// `r` is the floor of the square root of `n`.
pub open spec fn is_sqrt(n: int, r: int) -> bool {
    0 <= r && r * r <= n && n < (r + 1) * (r + 1)
}

/// The floor of the square root of a non-negative integer.
pub open spec fn sqrt_floor(n: int) -> int {
    choose|r: int| is_sqrt(n, r)
}

/// Fixed-point square root of a non-negative fixed-point value: the
/// representation of `sqrt(a / FX_SCALE)` is `sqrt(a * FX_SCALE)`.
pub open spec fn s_fsqrt(a: int) -> int
    recommends
        a >= 0,
{
    sqrt_floor(a * (FX_SCALE as int))
}

/// The floor square root exists and is unique, so `sqrt_floor` picks
/// exactly the witness.
pub proof fn lemma_sqrt_floor_is(n: int, r: int)
    requires
        is_sqrt(n, r),
    ensures
        sqrt_floor(n) == r,
{
    let picked = choose|q: int| is_sqrt(n, q);
    assert(is_sqrt(n, picked));
    assert(picked == r) by {
        if picked < r {
            assert((picked + 1) * (picked + 1) <= r * r) by (nonlinear_arith)
                requires
                    0 <= picked,
                    picked + 1 <= r,
            ;
        }
        if r < picked {
            assert((r + 1) * (r + 1) <= picked * picked) by (nonlinear_arith)
                requires
                    0 <= r,
                    r + 1 <= picked,
            ;
        }
    };
}

/// Clamp a double-width intermediate back into the scalar range.
fn clip128(x: i128) -> (r: i64)
    ensures
        r as int == clip(x as int),
{
    if x > FX_CLIP_MAX as i128 {
        FX_CLIP_MAX
    } else if x < -(FX_CLIP_MAX as i128) {
        -FX_CLIP_MAX
    } else {
        x as i64
    }
}

/// Truncating division of a double-width value by a positive divisor.
fn tdiv128(p: i128, d: i128) -> (r: i128)
    requires
        d > 0,
        p > i128::MIN,
    ensures
        r as int == tdiv(p as int, d as int),
{
    if p >= 0 {
        let q: u128 = (p as u128) / (d as u128);
        q as i128
    } else {
        let m: u128 = (-p) as u128;
        let q: u128 = m / (d as u128);
        -(q as i128)
    }
}

/// Fixed-point multiplication of two scalars.
pub fn fx_mul(a: i64, b: i64) -> (r: i64)
    ensures
        r as int == s_fmul(a as int, b as int),
{
    proof {
        assert(-0x4000_0000_0000_0000_0000_0000_0000_0000 <= (a as int) * (b as int)
            <= 0x4000_0000_0000_0000_0000_0000_0000_0000) by (nonlinear_arith)
            requires
                -0x8000_0000_0000_0000 <= a as int <= 0x7fff_ffff_ffff_ffff,
                -0x8000_0000_0000_0000 <= b as int <= 0x7fff_ffff_ffff_ffff,
        ;
    }
    let p: i128 = (a as i128) * (b as i128);
    clip128(tdiv128(p, FX_SCALE as i128))
}

/// Fixed-point division of two scalars; zero when the divisor is not
/// positive.
pub fn fx_div(a: i64, b: i64) -> (r: i64)
    ensures
        r as int == s_fdiv(a as int, b as int),
{
    if b <= 0 {
        0
    } else {
        proof {
            assert(-0x4000_0000_0000_0000_0000_0000_0000_0000 <= (a as int) * (FX_SCALE as int)
                <= 0x4000_0000_0000_0000_0000_0000_0000_0000) by (nonlinear_arith)
                requires
                    -0x8000_0000_0000_0000 <= a as int <= 0x7fff_ffff_ffff_ffff,
                    0 < FX_SCALE as int <= 0x10_0000_0000,
            ;
        }
        let num: i128 = (a as i128) * (FX_SCALE as i128);
        clip128(tdiv128(num, b as i128))
    }
}

/// Floor square root of an unsigned double-width value, by bisection.
fn sqrt_u128(n: u128) -> (r: u128)
    ensures
        is_sqrt(n as int, r as int),
{
    let mut lo: u128 = 0;
    let mut hi: u128 = 0x1_0000_0000_0000_0000;
    assert((hi as int) * (hi as int) > n as int) by (nonlinear_arith)
        requires
            hi as int == 0x1_0000_0000_0000_0000,
            n as int <= 0xffff_ffff_ffff_ffff_ffff_ffff_ffff_ffff,
    ;
    while lo + 1 < hi
        invariant
            lo < hi,
            hi <= 0x1_0000_0000_0000_0000,
            (lo as int) * (lo as int) <= n as int,
            (n as int) < (hi as int) * (hi as int),
        decreases hi - lo,
    {
        let mid: u128 = lo + (hi - lo) / 2;
        proof {
            assert((mid as int) * (mid as int) < 0x1_0000_0000_0000_0000_0000_0000_0000_0000)
                by (nonlinear_arith)
                requires
                    0 <= mid as int,
                    (mid as int) < 0x1_0000_0000_0000_0000,
            ;
        }
        let sq: u128 = mid * mid;
        if sq <= n {
            lo = mid;
        } else {
            hi = mid;
        }
    }
    lo
}

/// Fixed-point square root of a non-negative scalar.
pub fn fx_sqrt(a: i64) -> (r: i64)
    requires
        a >= 0,
    ensures
        r as int == s_fsqrt(a as int),
        r >= 0,
{
    proof {
        assert((a as int) * (FX_SCALE as int) <= 0x7fff_ffff_ffff_ffff * 0x10_0000_0000)
            by (nonlinear_arith)
            requires
                0 <= a as int <= 0x7fff_ffff_ffff_ffff,
                0 < FX_SCALE as int <= 0x10_0000_0000,
        ;
    }
    let n: u128 = (a as u128) * (FX_SCALE as u128);
    let s = sqrt_u128(n);
    proof {
        assert(s as int <= 0x7fff_ffff_ffff_ffff) by {
            if s as int > 0x7fff_ffff_ffff_ffff {
                assert((s as int) * (s as int) > 0x7fff_ffff_ffff_ffff * 0x10_0000_0000)
                    by (nonlinear_arith)
                    requires
                        s as int > 0x7fff_ffff_ffff_ffff,
                ;
            }
        };
        lemma_sqrt_floor_is(n as int, s as int);
        assert(n as int == (a as int) * (FX_SCALE as int));
    }
    s as i64
}

/// Saturating addition of two scalars.
pub fn sat_add(a: i64, b: i64) -> (r: i64)
    ensures
        r as int == s_add(a as int, b as int),
{
    clip128(a as i128 + b as i128)
}

/// Saturating subtraction of two scalars.
pub fn sat_sub(a: i64, b: i64) -> (r: i64)
    ensures
        r as int == s_sub(a as int, b as int),
{
    clip128(a as i128 - b as i128)
}

} // verus!
