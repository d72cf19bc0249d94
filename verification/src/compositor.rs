//! Image compositing operations.
//!
//! # Supported operators
//! * Over — the default operator.  Blends a source onto a destination,
//!   similar to overlapping two semi-transparent slides.  If the source is
//!   opaque, the over operation makes the destination opaque as well.
//!
//! To add a new operator, implement the function for the operator, add a
//! tag for it, and add the "tag => function" arm in `fetch_operator`.  The
//! new operator is then available to any context via `fetch_operator`,
//! without changing any caller.

use crate::fixed::{lemma_mul_fits, Fixed, SCALE};
use crate::types::{Rgba, RgbaView};
use vstd::arithmetic::div_mod::{lemma_div_is_ordered, lemma_div_multiples_vanish,
    lemma_div_pos_is_pos};
use vstd::arithmetic::mul::{lemma_mul_inequality, lemma_mul_is_associative, lemma_mul_nonnegative};
use vstd::prelude::*;

verus! {

/// The supported image compositing operators.
pub enum Operator {
    /// The default operator.  Draws the source layer on top of the
    /// destination layer.
    Over,
}

/// The raw blended alpha of the "over" operator:
/// `sa + da * (1 - sa)` in fixed point, truncated.
pub open spec fn over_alpha_raw(sa: int, da: int) -> int {
    (sa * SCALE + da * (SCALE - sa)) / (SCALE as int)
}

/// The raw blended color channel of the "over" operator:
/// `(sc * sa + dc * da * (1 - sa)) / ra`, where `ra` is the exact blended
/// alpha, in fixed point, truncated.  When the blended alpha is zero —
/// both inputs fully transparent — the channel is defined to be zero, so
/// the result is transparent black rather than an arbitrary value.
pub open spec fn over_channel_raw(sc: int, dc: int, sa: int, da: int) -> int {
    let n = sa * SCALE + da * (SCALE - sa);
    if n == 0 {
        0
    } else {
        (sc * sa * SCALE + dc * da * (SCALE - sa)) / n
    }
}

/// The color that "over" produces from `src` over `dst`.
pub open spec fn over_spec(src: RgbaView, dst: RgbaView) -> RgbaView {
    RgbaView {
        red: over_channel_raw(src.red, dst.red, src.alpha, dst.alpha),
        green: over_channel_raw(src.green, dst.green, src.alpha, dst.alpha),
        blue: over_channel_raw(src.blue, dst.blue, src.alpha, dst.alpha),
        alpha: over_alpha_raw(src.alpha, dst.alpha),
    }
}

/// The blended alpha, on raw channel parts.
fn over_alpha(sa: i64, da: i64) -> (r: i64)
    requires
        0 <= sa <= SCALE,
        0 <= da <= SCALE,
    ensures
        r as int == over_alpha_raw(sa as int, da as int),
        0 <= r <= SCALE,
        sa == SCALE ==> r == SCALE,
        sa == 0 && da == 0 ==> r == 0,
{
    proof {
        lemma_mul_fits(da as int, 65536 - sa as int, 65536, 65536);
        lemma_mul_nonnegative(da as int, 65536 - sa as int);
        lemma_mul_inequality(da as int, 65536, 65536 - sa as int);
    }
    let n = sa * 65536 + da * (65536 - sa);
    proof {
        lemma_div_pos_is_pos(n as int, 65536);
        lemma_div_is_ordered(n as int, (65536 * 65536) as int, 65536);
    }
    ((n as u64) / 65536) as i64
}

/// One blended color channel, on raw channel parts: the division is by the
/// exact blended alpha, so the result never leaves the unit range.
fn over_color(sc: i64, dc: i64, sa: i64, da: i64) -> (r: i64)
    requires
        0 <= sc <= SCALE,
        0 <= dc <= SCALE,
        0 <= sa <= SCALE,
        0 <= da <= SCALE,
    ensures
        r as int == over_channel_raw(sc as int, dc as int, sa as int, da as int),
        0 <= r <= SCALE,
{
    proof {
        lemma_mul_fits(da as int, 65536 - sa as int, 65536, 65536);
        lemma_mul_nonnegative(da as int, 65536 - sa as int);
    }
    let t = da * (65536 - sa);
    let n_alpha = sa * 65536 + t;
    if n_alpha == 0 {
        return 0;
    }
    proof {
        lemma_mul_fits(sc as int, sa as int, 65536, 65536);
        lemma_mul_nonnegative(sc as int, sa as int);
        lemma_mul_fits(dc as int, t as int, 65536, 0x1_0000_0000);
        lemma_mul_nonnegative(dc as int, t as int);
    }
    let num = sc * sa * 65536 + dc * t;
    proof {
        // num <= 65536 * n_alpha, so the quotient stays within the unit range
        lemma_mul_inequality(sc as int, 65536, sa as int);
        lemma_mul_inequality(dc as int, 65536, t as int);
        assert(num as int <= 65536 * (n_alpha as int));
        lemma_div_pos_is_pos(num as int, n_alpha as int);
        lemma_div_is_ordered(num as int, 65536 * (n_alpha as int), n_alpha as int);
        lemma_div_multiples_vanish(65536, n_alpha as int);
        // the numerator matches the specification's association of factors
        lemma_mul_is_associative(dc as int, da as int, 65536 - sa as int);
    }
    ((num as u64) / (n_alpha as u64)) as i64
}

/// Composites `source` over `destination`, leaving the result in
/// `destination`.
///
/// If the source is semi-transparent, the blend mixes source and
/// destination; an opaque source covers the destination exactly.  When
/// both inputs are fully transparent the result is transparent black.
pub fn over(source: &Rgba, destination: &mut Rgba)
    ensures
        final(destination)@ == over_spec(source@, old(destination)@),
        source@.alpha == SCALE ==> final(destination)@ == source@,
        source@.alpha == 0 && old(destination)@.alpha == 0 ==> final(destination)@ == (RgbaView {
            red: 0,
            green: 0,
            blue: 0,
            alpha: 0,
        }),
{
    let sa = source.alpha().raw();
    let da = destination.alpha().raw();
    let alpha = over_alpha(sa, da);
    let red = over_color(source.red().raw(), destination.red().raw(), sa, da);
    let green = over_color(source.green().raw(), destination.green().raw(), sa, da);
    let blue = over_color(source.blue().raw(), destination.blue().raw(), sa, da);
    proof {
        if sa == 65536 {
            lemma_over_opaque(source@, old(destination)@);
        }
    }
    *destination = Rgba::from_unit_raw(red, green, blue, alpha);
}

/// An opaque source covers the destination exactly: with full source
/// alpha, the "over" result equals the source.
pub proof fn lemma_over_opaque(src: RgbaView, dst: RgbaView)
    requires
        src.alpha == SCALE,
    ensures
        over_spec(src, dst) == src,
{
    lemma_div_multiples_vanish(src.alpha, 65536);
    lemma_mul_is_associative(src.red, 65536, 65536);
    lemma_div_multiples_vanish(src.red, (65536 * 65536) as int);
    lemma_mul_is_associative(src.green, 65536, 65536);
    lemma_div_multiples_vanish(src.green, (65536 * 65536) as int);
    lemma_mul_is_associative(src.blue, 65536, 65536);
    lemma_div_multiples_vanish(src.blue, (65536 * 65536) as int);
}

/// Composites `source` over `destination`, returning the blended color.
pub fn over_blend(source: Rgba, destination: Rgba) -> (r: Rgba)
    ensures
        r@ == over_spec(source@, destination@),
{
    let mut blended = destination;
    over(&source, &mut blended);
    blended
}

/// Returns the compositing function that corresponds to an `Operator`
/// tag, allowing a context to pick the operation dynamically.  Every
/// function handed out blends a source (first argument) with a
/// destination (second argument) according to its operator's rule.
pub fn fetch_operator(op: &Operator) -> (f: impl Fn(Rgba, Rgba) -> Rgba)
    ensures
        forall|s: Rgba, d: Rgba| #[trigger] call_requires(f, (s, d)),
        forall|s: Rgba, d: Rgba, r: Rgba|
            #[trigger] call_ensures(f, (s, d), r) ==> r@ == over_spec(s@, d@),
{
    match op {
        Operator::Over => over_blend,
    }
}

} // verus!
