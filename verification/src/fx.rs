//! Saturating fixed-point arithmetic on scaled 64-bit integers.
//!
//! A value represents the real number `raw / SCALE`. Intermediate products
//! and quotients are computed exactly in 128 bits, rescaled with division
//! that truncates toward zero, and clamped into `[-SAT, SAT]`; saturation
//! is the integer analogue of a diverging floating-point computation.

use vstd::arithmetic::div_mod::{lemma_div_basics_4, lemma_div_basics_5};
use vstd::prelude::*;

verus! {

/// Number of fixed-point units per whole unit: six decimal digits.
pub const SCALE: i64 = 1_000_000;

/// Saturation bound: every computed value stays in `[-SAT, SAT]`.
pub const SAT: i64 = 0x7fff_ffff_ffff_ffff;

/// Clamp an unbounded intermediate into the representable band.
pub open spec fn clamp(v: int) -> int {
    if v > SAT as int {
        SAT as int
    } else if v < -(SAT as int) {
        -(SAT as int)
    } else {
        v
    }
}

/// Division truncating toward zero, the rounding used by every
/// fixed-point operation here; meaningful for positive divisors.
pub open spec fn tdiv(a: int, b: int) -> int
    recommends
        b >= 1,
{
    if a >= 0 {
        a / b
    } else {
        -((-a) / b)
    }
}

/// Saturating addition of two fixed-point values.
pub open spec fn fadd_s(a: int, b: int) -> int {
    clamp(a + b)
}

/// Saturating subtraction of two fixed-point values.
pub open spec fn fsub_s(a: int, b: int) -> int {
    clamp(a - b)
}

/// Saturating fixed-point multiplication: the exact product is rescaled
/// by `SCALE` with truncation toward zero, then clamped.
pub open spec fn fmul_s(a: int, b: int) -> int {
    clamp(tdiv(a * b, SCALE as int))
}

/// Fixed-point quotient of two non-negative spans; a zero denominator
/// (a degenerate range) yields zero.
pub open spec fn fdivr_s(a: int, b: int) -> int
    recommends
        a >= 0,
        b >= 0,
{
    if b <= 0 {
        0
    } else {
        clamp(tdiv(a * (SCALE as int), b))
    }
}

/// Scale an accumulated gradient sum by `2 / n`, clamped.
pub open spec fn gscale_s(acc: int, n: int) -> int
    recommends
        n >= 1,
{
    clamp(tdiv(2 * acc, n))
}

/// Truncating division stays between zero and the dividend.
pub proof fn lemma_tdiv_bounds(a: int, b: int)
    requires
        b >= 1,
    ensures
        a >= 0 ==> 0 <= tdiv(a, b) <= a,
        a < 0 ==> a <= tdiv(a, b) <= 0,
{
    if a >= 0 {
        lemma_div_basics_4(a, b);
        lemma_div_basics_5(a, b);
    } else {
        lemma_div_basics_4(-a, b);
        lemma_div_basics_5(-a, b);
    }
}

/// Clamp an exactly computed 128-bit intermediate into a stored value.
fn clamp128(v: i128) -> (r: i64)
    ensures
        r as int == clamp(v as int),
{
    if v > SAT as i128 {
        SAT
    } else if v < -(SAT as i128) {
        -SAT
    } else {
        v as i64
    }
}

/// Truncating division on 128-bit intermediates.
pub(crate) fn tdiv128(a: i128, b: i128) -> (q: i128)
    requires
        b >= 1,
        a != i128::MIN,
    ensures
        q as int == tdiv(a as int, b as int),
        a >= 0 ==> 0 <= q <= a,
        a < 0 ==> a <= q <= 0,
{
    proof {
        lemma_tdiv_bounds(a as int, b as int);
    }
    if a >= 0 {
        let qu: u128 = (a as u128) / (b as u128);
        qu as i128
    } else {
        let m: i128 = -a;
        let qu: u128 = (m as u128) / (b as u128);
        -(qu as i128)
    }
}

/// Saturating addition of two stored values.
pub fn fadd(a: i64, b: i64) -> (r: i64)
    ensures
        r as int == fadd_s(a as int, b as int),
{
    let s: i128 = a as i128 + b as i128;
    clamp128(s)
}

/// Saturating subtraction of two stored values.
pub fn fsub(a: i64, b: i64) -> (r: i64)
    ensures
        r as int == fsub_s(a as int, b as int),
{
    let s: i128 = a as i128 - b as i128;
    clamp128(s)
}

/// Saturating fixed-point multiplication of two stored values.
pub fn fmul(a: i64, b: i64) -> (r: i64)
    ensures
        r as int == fmul_s(a as int, b as int),
{
    proof {
        assert((-0x4000_0000_0000_0000_0000_0000_0000_0000 <= a as int * b as int
            <= 0x4000_0000_0000_0000_0000_0000_0000_0000) && a as int * b as int != i128::MIN)
            by (nonlinear_arith)
            requires
                -0x8000_0000_0000_0000 <= a <= 0x7fff_ffff_ffff_ffff,
                -0x8000_0000_0000_0000 <= b <= 0x7fff_ffff_ffff_ffff,
        ;
    }
    let p: i128 = (a as i128) * (b as i128);
    let q: i128 = tdiv128(p, SCALE as i128);
    clamp128(q)
}

/// Saturating fixed-point multiplication of a stored value by a
/// non-negative span held in 128 bits.
pub fn fmul_r(a: i64, b: i128) -> (r: i64)
    requires
        0 <= b <= u64::MAX,
    ensures
        r as int == fmul_s(a as int, b as int),
{
    proof {
        assert((-0x8000_0000_0000_0000_0000_0000_0000_0000 < a as int * b as int
            <= 0x7fff_ffff_ffff_ffff_ffff_ffff_ffff_ffff) && a as int * b as int != i128::MIN)
            by (nonlinear_arith)
            requires
                -0x8000_0000_0000_0000 <= a <= 0x7fff_ffff_ffff_ffff,
                0 <= b <= 0xffff_ffff_ffff_ffff,
        ;
    }
    let p: i128 = (a as i128) * b;
    let q: i128 = tdiv128(p, SCALE as i128);
    clamp128(q)
}

/// Fixed-point quotient of two non-negative spans held in 128 bits.
pub fn fdivr(a: i128, b: i128) -> (r: i64)
    requires
        0 <= a <= u64::MAX,
        0 <= b <= u64::MAX,
    ensures
        r as int == fdivr_s(a as int, b as int),
{
    if b == 0 {
        0
    } else {
        let p: i128 = a * (SCALE as i128);
        proof {
            assert(0 <= a as int * (SCALE as int) <= 0xffff_ffff_ffff_ffff * 0x10_0000)
                by (nonlinear_arith)
                requires
                    0 <= a <= 0xffff_ffff_ffff_ffff,
            ;
        }
        let q: i128 = tdiv128(p, b);
        clamp128(q)
    }
}

/// Scale an accumulated gradient sum by `2 / n`, clamped.
pub fn gscale(acc: i64, n: usize) -> (r: i64)
    requires
        n >= 1,
    ensures
        r as int == gscale_s(acc as int, n as int),
{
    let p: i128 = 2 * (acc as i128);
    let q: i128 = tdiv128(p, n as i128);
    clamp128(q)
}

/// Divide a stored value by a positive sample count, truncating toward
/// zero; the quotient never leaves the stored range.
pub fn divn(a: i64, n: usize) -> (r: i64)
    requires
        n >= 1,
    ensures
        r as int == tdiv(a as int, n as int),
{
    let q: i128 = tdiv128(a as i128, n as i128);
    q as i64
}

} // verus!
