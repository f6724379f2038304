//! Fixed-point stat values.
//!
//! Every stat, resource and modifier value in this crate is a fixed-point
//! number: an `i64` holding the value times [`SCALE`], so `1500` stands for
//! `1.5`. Multiplication and division therefore rescale by [`SCALE`], and
//! quotients truncate toward zero.
//!
//! Stats are recomputed every tick and no steady-state operation may panic
//! mid-tick, so arithmetic that would leave the `i64` range saturates at the
//! nearest representable bound instead of overflowing.
use vstd::prelude::*;

verus! {

use vstd::arithmetic::div_mod::lemma_div_nonincreasing;
use vstd::arithmetic::div_mod::lemma_div_pos_is_pos;

/// Number of raw units in one whole stat value.
pub const SCALE: i64 = 1000;

/// The integer nearest to `x` that an `i64` can hold.
pub open spec fn sat64(x: int) -> int {
    if x > i64::MAX {
        i64::MAX as int
    } else if x < i64::MIN {
        i64::MIN as int
    } else {
        x
    }
}

/// Quotient of `a` by `d`, truncated toward zero (the rounding executable
/// code uses), as opposed to the Euclidean `/` of spec arithmetic.
pub open spec fn tdiv(a: int, d: int) -> int {
    let m = if a >= 0 {
        a
    } else {
        -a
    };
    let n = if d >= 0 {
        d
    } else {
        -d
    };
    if (a >= 0) == (d >= 0) {
        m / n
    } else {
        -(m / n)
    }
}

/// Saturating fixed-point sum.
pub open spec fn spec_fadd(a: int, b: int) -> int {
    sat64(a + b)
}

/// Saturating fixed-point product: `a * b` rescaled by `SCALE`.
pub open spec fn spec_fmul(a: int, b: int) -> int {
    sat64(tdiv(a * b, SCALE as int))
}

/// Saturating product of `a` with the factor `1 + v` (`v` fixed-point).
pub open spec fn spec_fmul1p(a: int, v: int) -> int {
    sat64(tdiv(a * (SCALE + v), SCALE as int))
}

/// Saturating quotient of a fixed-point value by a plain count `n`.
pub open spec fn spec_fdiv_count(a: int, n: int) -> int {
    sat64(tdiv(a, n))
}

/// Ratio `c / m` as a fixed-point value; a zero divisor yields zero by
/// policy, so that a resource against an empty maximum reads as 0%.
pub open spec fn spec_percent(c: int, m: int) -> int {
    if m == 0 {
        0
    } else {
        sat64(tdiv(c * SCALE, m))
    }
}

/// Truncating toward zero by 1 changes nothing.
pub proof fn lemma_tdiv_by_one(a: int)
    ensures
        tdiv(a, 1) == a,
{
    if a >= 0 {
        assert(a / 1 == a);
    } else {
        assert((-a) / 1 == -a);
    }
}

/// The product of two `i64`-range factors stays well inside the `i128` range.
proof fn lemma_mul_bound(a: int, b: int, ba: int, bb: int)
    requires
        -ba <= a <= ba,
        -bb <= b <= bb,
        0 <= ba,
        0 <= bb,
    ensures
        -(ba * bb) <= a * b <= ba * bb,
{
    assert(-(ba * bb) <= a * b <= ba * bb) by (nonlinear_arith)
        requires
            -ba <= a <= ba,
            -bb <= b <= bb,
            0 <= ba,
            0 <= bb,
    ;
}

/// Clamps an `i128` intermediate back into the `i64` range.
fn clamp_to_i64(s: i128) -> (r: i64)
    ensures
        r as int == sat64(s as int),
{
    if s > i64::MAX as i128 {
        i64::MAX
    } else if s < i64::MIN as i128 {
        i64::MIN
    } else {
        s as i64
    }
}

/// Quotient of `a` by the positive divisor `d`, truncated toward zero.
fn div_i128_by_pos(a: i128, d: i128) -> (q: i128)
    requires
        1 <= d,
        i128::MIN < a,
    ensures
        q == tdiv(a as int, d as int),
{
    if a >= 0 {
        let m: u128 = a as u128;
        let dm: u128 = d as u128;
        let qu: u128 = m / dm;
        proof {
            lemma_div_nonincreasing(m as int, dm as int);
            lemma_div_pos_is_pos(m as int, dm as int);
        }
        qu as i128
    } else {
        let m: u128 = (-a) as u128;
        let dm: u128 = d as u128;
        let qu: u128 = m / dm;
        proof {
            lemma_div_nonincreasing(m as int, dm as int);
            lemma_div_pos_is_pos(m as int, dm as int);
        }
        -(qu as i128)
    }
}

/// Saturating sum of two fixed-point values.
pub fn fadd(a: i64, b: i64) -> (r: i64)
    ensures
        r as int == spec_fadd(a as int, b as int),
{
    let s: i128 = a as i128 + b as i128;
    clamp_to_i64(s)
}

/// Saturating fixed-point product, rescaled by `SCALE`.
pub fn fmul(a: i64, b: i64) -> (r: i64)
    ensures
        r as int == spec_fmul(a as int, b as int),
{
    proof {
        lemma_mul_bound(a as int, b as int, -(i64::MIN as int), -(i64::MIN as int));
    }
    let p: i128 = (a as i128) * (b as i128);
    let q: i128 = div_i128_by_pos(p, SCALE as i128);
    clamp_to_i64(q)
}

/// Saturating product of `a` with the factor `1 + v`.
pub fn fmul1p(a: i64, v: i64) -> (r: i64)
    ensures
        r as int == spec_fmul1p(a as int, v as int),
{
    let f: i128 = SCALE as i128 + v as i128;
    proof {
        lemma_mul_bound(a as int, f as int, -(i64::MIN as int), -(i64::MIN as int) + SCALE);
    }
    let p: i128 = (a as i128) * f;
    let q: i128 = div_i128_by_pos(p, SCALE as i128);
    clamp_to_i64(q)
}

/// Saturating quotient of a fixed-point value by a positive count.
pub fn fdiv_count(a: i64, n: usize) -> (r: i64)
    requires
        n >= 1,
    ensures
        r as int == spec_fdiv_count(a as int, n as int),
{
    let q: i128 = div_i128_by_pos(a as i128, n as i128);
    clamp_to_i64(q)
}

/// Ratio `c / m` as a fixed-point value; zero when the divisor is zero.
pub fn percent_of(c: i64, m: i64) -> (r: i64)
    ensures
        r as int == spec_percent(c as int, m as int),
{
    if m == 0 {
        0
    } else {
        proof {
            lemma_mul_bound(c as int, SCALE as int, -(i64::MIN as int), SCALE as int);
        }
        let p: i128 = (c as i128) * (SCALE as i128);
        if m > 0 {
            let q: i128 = div_i128_by_pos(p, m as i128);
            clamp_to_i64(q)
        } else {
            let dm: i128 = -(m as i128);
            let q: i128 = div_i128_by_pos(p, dm);
            proof {
                lemma_div_pos_is_pos(if p >= 0 { p as int } else { -(p as int) }, dm as int);
            }
            clamp_to_i64(-q)
        }
    }
}

} // verus!

