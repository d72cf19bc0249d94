//! A signed fixed-point scalar with 16 fractional bits, and the exact
//! integer arithmetic (truncating division, integer square root) that the
//! geometry and compositing code is specified with.

use vstd::arithmetic::div_mod::{lemma_div_is_ordered, lemma_div_multiples_vanish,
    lemma_div_nonincreasing, lemma_div_pos_is_pos};
use vstd::arithmetic::mul::lemma_mul_upper_bound;
use vstd::prelude::*;

verus! {

/// Scale of the fixed-point representation: a value with raw part `r`
/// stands for the real number `r / SCALE`.
pub const SCALE: i64 = 65536;

/// Division rounding toward zero, for a positive divisor.  This is the
/// rounding applied whenever a real quantity is truncated to an integer or
/// to a raw fixed-point part.
pub open spec fn trunc_div(n: int, d: int) -> int {
    if n >= 0 {
        n / d
    } else {
        -((-n) / d)
    }
}

/// A signed fixed-point number with 16 fractional bits: the raw part `r`
/// stands for the value `r / 65536`.
#[derive(Clone, Copy, Debug, PartialEq, Eq, Structural)]
pub struct Fixed {
    raw: i64,
}

impl View for Fixed {
    type V = int;

    /// A `Fixed` is viewed as its raw part; the value it stands for is
    /// the view divided by `SCALE`.
    closed spec fn view(&self) -> int {
        self.raw as int
    }
}

impl Fixed {
    /// The value whose raw part is `raw`, that is, the value `raw / SCALE`.
    pub fn from_raw(raw: i64) -> (r: Fixed)
        ensures
            r@ == raw as int,
    {
        Fixed { raw }
    }

    /// The raw part.
    pub fn raw(&self) -> (r: i64)
        ensures
            r as int == self@,
    {
        self.raw
    }

    /// The fixed-point value of the integer `v`.
    pub fn from_int(v: i64) -> (r: Fixed)
        requires
            -0x7FFF_FFFF_FFFF <= v <= 0x7FFF_FFFF_FFFF,
        ensures
            r@ == v * SCALE,
    {
        Fixed { raw: v * SCALE }
    }

    /// The fixed-point value of `num / den`, truncated toward zero.
    pub fn from_ratio(num: i64, den: i64) -> (r: Fixed)
        requires
            den > 0,
            -0x7FFF_FFFF_FFFF <= num <= 0x7FFF_FFFF_FFFF,
        ensures
            r@ == trunc_div(num * SCALE, den as int),
    {
        let n = num as i128 * 65536i128;
        proof {
            assert(n == num * SCALE);
            assert(n > i128::MIN);
        }
        let q = trunc_div_i128(n, den as i128);
        Fixed { raw: q as i64 }
    }
}

/// Truncating division on wide integers, for a positive divisor.
pub fn trunc_div_i128(n: i128, d: i128) -> (q: i128)
    requires
        d > 0,
        n > i128::MIN,
    ensures
        q == trunc_div(n as int, d as int),
        n >= 0 ==> 0 <= q <= n,
        n < 0 ==> n <= q <= 0,
{
    if n >= 0 {
        let nn = n as u128;
        let dd = d as u128;
        let qq = nn / dd;
        proof {
            lemma_div_pos_is_pos(nn as int, dd as int);
            lemma_div_nonincreasing(nn as int, dd as int);
        }
        qq as i128
    } else {
        let nn = (-n) as u128;
        let dd = d as u128;
        let qq = nn / dd;
        proof {
            lemma_div_pos_is_pos(nn as int, dd as int);
            lemma_div_nonincreasing(nn as int, dd as int);
        }
        -(qq as i128)
    }
}

/// Truncating division keeps a bound `c` whenever the dividend is within
/// `c` times the divisor.
pub proof fn lemma_trunc_div_range(n: int, d: int, c: int)
    requires
        d >= 1,
        c >= 0,
        -(c * d) <= n <= c * d,
    ensures
        -c <= trunc_div(n, d) <= c,
{
    if n >= 0 {
        lemma_div_pos_is_pos(n, d);
        lemma_div_is_ordered(n, c * d, d);
        lemma_div_multiples_vanish(c, d);
    } else {
        lemma_div_pos_is_pos(-n, d);
        lemma_div_is_ordered(-n, c * d, d);
        lemma_div_multiples_vanish(c, d);
    }
}

/// A product of values bounded in magnitude is bounded by the product of
/// the bounds.
pub proof fn lemma_mul_fits(x: int, y: int, bx: int, by: int)
    by (nonlinear_arith)
    requires
        0 <= bx,
        0 <= by,
        -bx <= x <= bx,
        -by <= y <= by,
    ensures
        -(bx * by) <= x * y <= bx * by,
{
}

/// A nonnegative value whose square is at most `b * b` is at most `b`.
pub proof fn lemma_root_le(r: int, b: int)
    by (nonlinear_arith)
    requires
        0 <= r,
        0 <= b,
        r * r <= b * b,
    ensures
        r <= b,
{
}

/// Integer square root: the greatest `r` with `r * r <= v`.
pub fn isqrt_u128(v: u128) -> (r: u128)
    ensures
        r * r <= v,
        v < (r + 1) * (r + 1),
{
    let mut lo: u128 = 0;
    let mut hi: u128 = 0xFFFF_FFFF_FFFF_FFFF;
    while lo < hi
        invariant
            lo <= hi <= 0xFFFF_FFFF_FFFF_FFFF,
            lo * lo <= v,
            v < (hi + 1) * (hi + 1),
        decreases hi - lo,
    {
        let mid = lo + (hi - lo + 1) / 2;
        proof {
            lemma_mul_upper_bound(
                mid as int,
                0xFFFF_FFFF_FFFF_FFFF,
                mid as int,
                0xFFFF_FFFF_FFFF_FFFF,
            );
        }
        if mid * mid <= v {
            lo = mid;
        } else {
            hi = mid - 1;
        }
    }
    lo
}

} // verus!
