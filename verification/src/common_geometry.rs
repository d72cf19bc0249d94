//! Geometric structs and methods common to the rendering algorithms: points,
//! line segments with slope, midpoint and rasterization, and vectors.

use crate::fixed::{isqrt_u128, lemma_mul_fits, lemma_root_le, lemma_trunc_div_range, trunc_div,
    trunc_div_i128, Fixed, SCALE};
use vstd::prelude::*;

verus! {

/// The greatest raw coordinate magnitude at which a segment can be
/// rasterized: every emitted pixel index then fits an `i32`.
pub const MAX_RASTER_COORD: i64 = 0x7FFF_FFFF_0000;

/// A linear interpolation `l * sr + t * d` between `l * sr` and
/// `(l + d) * sr` stays within the coordinate bound times `sr`.
proof fn lemma_interp_bound(l: int, d: int, t: int, sr: int, m: int)
    by (nonlinear_arith)
    requires
        0 <= t <= sr,
        -m <= l <= m,
        -m <= l + d <= m,
    ensures
        -(m * sr) <= l * sr + t * d <= m * sr,
{
}

/// The greatest raw component magnitude at which vector products are
/// computed.
pub const MAX_VECTOR_COORD: i64 = 0x40_0000_0000;

/// A raw fixed-point part within the vector bound.
pub open spec fn vector_in_range(v: int) -> bool {
    -MAX_VECTOR_COORD <= v <= MAX_VECTOR_COORD
}

/// `r` is the integer square root of `v`, rounded down.
pub open spec fn is_floor_sqrt(r: int, v: int) -> bool {
    0 <= r && r * r <= v && v < (r + 1) * (r + 1)
}

/// A raw fixed-point part clamped into the cosine range `[-1, 1]`.
pub open spec fn clamp_cosine(v: int) -> int {
    if v > SCALE {
        SCALE as int
    } else if v < -SCALE {
        -(SCALE as int)
    } else {
        v
    }
}

/// The canonical rise of the slope for deltas `(dy, dx)`: the run is made
/// nonnegative, and a vertical slope (`dx == 0`) is the canonical pair
/// `(1, 0)`, whichever way the segment is traversed.
pub open spec fn slope_rise(dy: int, dx: int) -> int {
    if dx == 0 {
        1
    } else if dx < 0 {
        -dy
    } else {
        dy
    }
}

/// The canonical run of the slope for deltas `(dy, dx)`: the absolute value
/// of `dx`.
pub open spec fn slope_run(dy: int, dx: int) -> int {
    if dx < 0 {
        -dx
    } else {
        dx
    }
}

/// The slope of a line segment as an exact rational `rise / run`, with a
/// total steepness order: a vertical slope (`run == 0`) compares greater
/// than every finite slope and equal to every other vertical slope.
#[derive(Clone, Copy, Debug)]
pub struct Slope {
    rise: i64,
    run: i64,
}

/// Two slopes stand for the same steepness.  With the canonical form this
/// is cross-multiplication of the rational values; it makes every vertical
/// slope equal to every other vertical slope and to no finite one.
pub open spec fn slope_eq(a: Slope, b: Slope) -> bool {
    a.rise() * b.run() == b.rise() * a.run()
}

/// Strict steepness order by cross-multiplication.  With the canonical
/// form, every finite slope is less than every vertical slope, and finite
/// slopes compare as rationals.
pub open spec fn slope_lt(a: Slope, b: Slope) -> bool {
    a.rise() * b.run() < b.rise() * a.run()
}

impl Slope {
    /// The rise of the canonical pair.
    pub closed spec fn rise(self) -> int {
        self.rise as int
    }

    /// The run of the canonical pair; never negative.
    pub closed spec fn run(self) -> int {
        self.run as int
    }

    /// A slope is vertical when its run is zero.
    pub open spec fn is_vertical(self) -> bool {
        self.run() == 0
    }

    /// The canonical form that every constructed slope has: the run is
    /// nonnegative, and a vertical slope is the pair `(1, 0)`.
    pub open spec fn canonical(self) -> bool {
        self.run() >= 0 && (self.run() == 0 ==> self.rise() == 1)
    }

    /// The slope with rise `dy` over run `dx`, in canonical form;
    /// `dx == 0` gives the vertical slope.
    pub fn ratio(dy: i64, dx: i64) -> (s: Slope)
        requires
            dy > i64::MIN,
            dx > i64::MIN,
        ensures
            s.rise() == slope_rise(dy as int, dx as int),
            s.run() == slope_run(dy as int, dx as int),
            s.canonical(),
    {
        if dx == 0 {
            Slope { rise: 1, run: 0 }
        } else if dx < 0 {
            Slope { rise: -dy, run: -dx }
        } else {
            Slope { rise: dy, run: dx }
        }
    }

    /// The canonical `(rise, run)` pair.
    pub fn parts(&self) -> (p: (i64, i64))
        ensures
            p.0 as int == self.rise(),
            p.1 as int == self.run(),
    {
        (self.rise, self.run)
    }
}

impl PartialEq for Slope {
    fn eq(&self, other: &Slope) -> (r: bool) {
        proof {
            lemma_mul_fits(
                self.rise as int,
                other.run as int,
                0x8000_0000_0000_0000,
                0x8000_0000_0000_0000,
            );
            lemma_mul_fits(
                other.rise as int,
                self.run as int,
                0x8000_0000_0000_0000,
                0x8000_0000_0000_0000,
            );
        }
        (self.rise as i128) * (other.run as i128) == (other.rise as i128) * (self.run as i128)
    }
}

impl vstd::std_specs::cmp::PartialEqSpecImpl for Slope {
    open spec fn obeys_eq_spec() -> bool {
        true
    }

    open spec fn eq_spec(&self, other: &Slope) -> bool {
        slope_eq(*self, *other)
    }
}

impl PartialOrd for Slope {
    fn partial_cmp(&self, other: &Slope) -> (r: Option<core::cmp::Ordering>) {
        proof {
            lemma_mul_fits(
                self.rise as int,
                other.run as int,
                0x8000_0000_0000_0000,
                0x8000_0000_0000_0000,
            );
            lemma_mul_fits(
                other.rise as int,
                self.run as int,
                0x8000_0000_0000_0000,
                0x8000_0000_0000_0000,
            );
        }
        let left = (self.rise as i128) * (other.run as i128);
        let right = (other.rise as i128) * (self.run as i128);
        if left == right {
            Some(core::cmp::Ordering::Equal)
        } else if left < right {
            Some(core::cmp::Ordering::Less)
        } else {
            Some(core::cmp::Ordering::Greater)
        }
    }
}

impl vstd::std_specs::cmp::PartialOrdSpecImpl for Slope {
    open spec fn obeys_partial_cmp_spec() -> bool {
        true
    }

    open spec fn partial_cmp_spec(&self, other: &Slope) -> Option<core::cmp::Ordering> {
        if slope_eq(*self, *other) {
            Some(core::cmp::Ordering::Equal)
        } else if slope_lt(*self, *other) {
            Some(core::cmp::Ordering::Less)
        } else {
            Some(core::cmp::Ordering::Greater)
        }
    }
}

/// A point, defined by two fixed-point coordinates `x` and `y`.
///
/// Equality is exact, component-wise comparison, with no tolerance.
#[derive(Clone, Copy, Debug, PartialEq, Eq, Structural)]
pub struct Point {
    pub x: Fixed,
    pub y: Fixed,
}

impl Point {
    /// Component-wise difference, producing a point of deltas.
    pub fn sub(self, other: Point) -> (r: Point)
        requires
            i64::MIN <= self.x@ - other.x@ <= i64::MAX,
            i64::MIN <= self.y@ - other.y@ <= i64::MAX,
        ensures
            r.x@ == self.x@ - other.x@,
            r.y@ == self.y@ - other.y@,
    {
        Point {
            x: Fixed::from_raw(self.x.raw() - other.x.raw()),
            y: Fixed::from_raw(self.y.raw() - other.y.raw()),
        }
    }
}

/// A line segment, defined by two points.
///
/// Equality is unordered: two segments are equal when their endpoint pairs
/// match in either order.
#[derive(Clone, Copy, Debug)]
pub struct LineSegment {
    pub point1: Point,
    pub point2: Point,
}

/// Unordered equality of segments: the endpoint pairs match in either order.
pub open spec fn seg_eq(a: LineSegment, b: LineSegment) -> bool {
    ||| (a.point1 == b.point1 && a.point2 == b.point2)
    ||| (a.point1 == b.point2 && a.point2 == b.point1)
}

impl PartialEq for LineSegment {
    fn eq(&self, other: &LineSegment) -> (r: bool) {
        (self.point1 == other.point1 && self.point2 == other.point2) || (self.point1
            == other.point2 && self.point2 == other.point1)
    }
}

impl vstd::std_specs::cmp::PartialEqSpecImpl for LineSegment {
    open spec fn obeys_eq_spec() -> bool {
        true
    }

    open spec fn eq_spec(&self, other: &LineSegment) -> bool {
        seg_eq(*self, *other)
    }
}

impl LineSegment {
    /// The segment with the given endpoint coordinates.
    pub fn new(first_x: Fixed, first_y: Fixed, second_x: Fixed, second_y: Fixed) -> (s:
        LineSegment)
        ensures
            s.point1 == (Point { x: first_x, y: first_y }),
            s.point2 == (Point { x: second_x, y: second_y }),
    {
        LineSegment {
            point1: Point { x: first_x, y: first_y },
            point2: Point { x: second_x, y: second_y },
        }
    }

    /// The segment with the given endpoints.
    pub fn from_points(point1: Point, point2: Point) -> (s: LineSegment)
        ensures
            s.point1 == point1,
            s.point2 == point2,
    {
        LineSegment { point1, point2 }
    }

    /// The rise of this segment's slope, in canonical form.
    pub open spec fn slope_rise_spec(self) -> int {
        slope_rise(self.point2.y@ - self.point1.y@, self.point2.x@ - self.point1.x@)
    }

    /// The run of this segment's slope, in canonical form.
    pub open spec fn slope_run_spec(self) -> int {
        slope_run(self.point2.y@ - self.point1.y@, self.point2.x@ - self.point1.x@)
    }

    /// The slope of this segment, as an exact rational.
    ///
    /// A vertical segment (`dx == 0`) gives the vertical slope, which
    /// compares greater than every finite slope and equal to the slope of
    /// every other vertical segment, regardless of the direction from
    /// `point1` to `point2`.
    pub fn slope(&self) -> (s: Slope)
        requires
            i64::MIN < self.point2.x@ - self.point1.x@ <= i64::MAX,
            i64::MIN < self.point2.y@ - self.point1.y@ <= i64::MAX,
        ensures
            s.rise() == self.slope_rise_spec(),
            s.run() == self.slope_run_spec(),
            s.canonical(),
    {
        let dx = self.point2.x.raw() - self.point1.x.raw();
        let dy = self.point2.y.raw() - self.point1.y.raw();
        Slope::ratio(dy, dx)
    }

    /// The length under this library's convention: the square root of the
    /// sum `dx + dy` of the coordinate differences — not of their squares —
    /// in fixed point, truncated.  `None` when that sum is negative, where
    /// no real square root exists.
    pub fn length(&self) -> (r: Option<Fixed>)
        ensures
            ({
                let s = (self.point2.x@ - self.point1.x@) + (self.point2.y@ - self.point1.y@);
                match r {
                    Some(l) => s >= 0 && is_floor_sqrt(l@, SCALE * s),
                    None => s < 0,
                }
            }),
    {
        let s = self.point2.x.raw() as i128 - self.point1.x.raw() as i128
            + self.point2.y.raw() as i128 - self.point1.y.raw() as i128;
        if s < 0 {
            return None;
        }
        let root = isqrt_u128((s as u128) * 65536u128);
        proof {
            lemma_root_le(root as int, 0x7FFF_FFFF_FFFF);
        }
        Some(Fixed::from_raw(root as i64))
    }

    /// Both endpoints within the rasterization bound, so that every pixel
    /// index the rasterizer emits fits an `i32`.
    pub open spec fn rasterizable(self) -> bool {
        &&& -MAX_RASTER_COORD <= self.point1.x@ <= MAX_RASTER_COORD
        &&& -MAX_RASTER_COORD <= self.point1.y@ <= MAX_RASTER_COORD
        &&& -MAX_RASTER_COORD <= self.point2.x@ <= MAX_RASTER_COORD
        &&& -MAX_RASTER_COORD <= self.point2.y@ <= MAX_RASTER_COORD
    }

    /// The endpoint the rasterizer starts from: the leftmost one, with a
    /// tie going to `point2`.
    pub open spec fn raster_left(self) -> Point {
        if self.point1.x@ < self.point2.x@ {
            self.point1
        } else {
            self.point2
        }
    }

    /// The endpoint the rasterizer walks toward: the rightmost one, with a
    /// tie going to `point2`.
    pub open spec fn raster_right(self) -> Point {
        if self.point1.x@ > self.point2.x@ {
            self.point1
        } else {
            self.point2
        }
    }

    /// The raw sampling density of the rasterizer: the dominant axis delta
    /// `max(dx, |dy|)` between the leftmost and rightmost endpoints.
    pub open spec fn raster_steps(self) -> int {
        let dx = self.raster_right().x@ - self.raster_left().x@;
        let dy = self.raster_right().y@ - self.raster_left().y@;
        let ady = if dy < 0 {
            -dy
        } else {
            dy
        };
        if dx > ady {
            dx
        } else {
            ady
        }
    }

    /// How many pixels the rasterizer emits: the integer part of the
    /// sampling density.
    pub open spec fn pixel_count(self) -> int {
        self.raster_steps() / (SCALE as int)
    }

    /// The column of the `k`-th emitted pixel, counting from `k == 1`: the
    /// leftmost `x` plus `k` increments of `dx / steps`, truncated toward
    /// zero.
    pub open spec fn pixel_x(self, k: int) -> int {
        let l = self.raster_left().x@;
        let d = self.raster_right().x@ - self.raster_left().x@;
        let sr = self.raster_steps();
        trunc_div(l * sr + k * d * SCALE, SCALE * sr)
    }

    /// The row of the `k`-th emitted pixel, counting from `k == 1`: the
    /// leftmost `y` plus `k` increments of `dy / steps`, truncated toward
    /// zero.
    pub open spec fn pixel_y(self, k: int) -> int {
        let l = self.raster_left().y@;
        let d = self.raster_right().y@ - self.raster_left().y@;
        let sr = self.raster_steps();
        trunc_div(l * sr + k * d * SCALE, SCALE * sr)
    }

    /// The pixels this segment colors when rasterized, in order: a digital
    /// differential analyzer.
    ///
    /// The walk runs from the leftmost endpoint toward the rightmost one in
    /// `floor(steps)` unit steps of the dominant axis, where `steps` is
    /// `max(dx, |dy|)`; each step first advances both coordinates by the
    /// per-step increments `dx / steps` and `dy / steps`, then emits the
    /// truncated integer pair.  The starting point itself is never emitted,
    /// because the increment is applied before the first emission.  A fresh
    /// call recomputes everything from the endpoints.
    pub fn into_pixel_coordinates(&self) -> (pix: Vec<(i32, i32)>)
        requires
            self.rasterizable(),
        ensures
            pix@.len() == self.pixel_count(),
            forall|i: int|
                0 <= i < pix@.len() ==> (#[trigger] pix@[i]).0 as int == self.pixel_x(i + 1)
                    && pix@[i].1 as int == self.pixel_y(i + 1),
    {
        let left = self.leftmost_point();
        let right = self.rightmost_point();
        let lx = left.x.raw();
        let ly = left.y.raw();
        let dx = right.x.raw() - left.x.raw();
        let dy = right.y.raw() - left.y.raw();
        let ady = if dy < 0 {
            -dy
        } else {
            dy
        };
        let steps = if dx > ady {
            dx
        } else {
            ady
        };
        let n = (steps as u64) / 65536u64;
        let mut pix: Vec<(i32, i32)> = Vec::new();
        let mut k: u64 = 0;
        while k < n
            invariant
                self.rasterizable(),
                lx as int == self.raster_left().x@,
                ly as int == self.raster_left().y@,
                dx as int == self.raster_right().x@ - self.raster_left().x@,
                dy as int == self.raster_right().y@ - self.raster_left().y@,
                steps as int == self.raster_steps(),
                n as int == self.pixel_count(),
                0 <= k <= n,
                pix@.len() == k as int,
                forall|i: int|
                    0 <= i < k ==> (#[trigger] pix@[i]).0 as int == self.pixel_x(i + 1)
                        && pix@[i].1 as int == self.pixel_y(i + 1),
            decreases n - k,
        {
            k = k + 1;
            proof {
                assert(steps >= 65536);
                assert(k as int * 65536 <= steps as int);
                lemma_mul_fits(
                    lx as int,
                    steps as int,
                    0x7FFF_FFFF_0000,
                    0xFFFF_FFFE_0000,
                );
                lemma_mul_fits(
                    ly as int,
                    steps as int,
                    0x7FFF_FFFF_0000,
                    0xFFFF_FFFE_0000,
                );
                lemma_mul_fits(k as int, dx as int, 0xFFFF_FFFF, 0xFFFF_FFFE_0000);
                lemma_mul_fits(k as int, dy as int, 0xFFFF_FFFE_0000, 0xFFFF_FFFE_0000);
            }
            let numx = lx as i128 * steps as i128 + k as i128 * dx as i128 * 65536i128;
            let numy = ly as i128 * steps as i128 + k as i128 * dy as i128 * 65536i128;
            let den = steps as i128 * 65536i128;
            proof {
                lemma_interp_bound(
                    lx as int,
                    dx as int,
                    k as int * 65536,
                    steps as int,
                    0x7FFF_FFFF_0000,
                );
                lemma_interp_bound(
                    ly as int,
                    dy as int,
                    k as int * 65536,
                    steps as int,
                    0x7FFF_FFFF_0000,
                );
                assert((k as int * (dx as int)) * 65536 == (k as int * 65536) * (dx as int))
                    by (nonlinear_arith);
                assert((k as int * (dy as int)) * 65536 == (k as int * 65536) * (dy as int))
                    by (nonlinear_arith);
                assert(numx as int == lx as int * (steps as int) + (k as int * 65536) * (
                dx as int));
                assert(numy as int == ly as int * (steps as int) + (k as int * 65536) * (
                dy as int));
                assert(0x7FFF_FFFF * (den as int) == 0x7FFF_FFFF_0000 * (steps as int));
                lemma_trunc_div_range(numx as int, den as int, 0x7FFF_FFFF);
                lemma_trunc_div_range(numy as int, den as int, 0x7FFF_FFFF);
            }
            let px = trunc_div_i128(numx, den);
            let py = trunc_div_i128(numy, den);
            pix.push((px as i32, py as i32));
        }
        pix
    }

    /// The point halfway between the two endpoints: each coordinate is the
    /// mean of the endpoints' coordinates, truncated toward zero in the raw
    /// fixed-point parts.  The result does not depend on which endpoint is
    /// `point1` and which is `point2`.
    pub fn midpoint(&self) -> (m: Point)
        ensures
            m.x@ == trunc_div(self.point1.x@ + self.point2.x@, 2),
            m.y@ == trunc_div(self.point1.y@ + self.point2.y@, 2),
    {
        let mx = trunc_div_i128(
            self.point1.x.raw() as i128 + self.point2.x.raw() as i128,
            2,
        );
        let my = trunc_div_i128(
            self.point1.y.raw() as i128 + self.point2.y.raw() as i128,
            2,
        );
        Point { x: Fixed::from_raw(mx as i64), y: Fixed::from_raw(my as i64) }
    }

    /// The endpoint with the strictly greater `y`; `point2` on a tie.
    pub fn highest_point(&self) -> (p: Point)
        ensures
            p == (if self.point1.y@ > self.point2.y@ {
                self.point1
            } else {
                self.point2
            }),
    {
        if self.point1.y.raw() > self.point2.y.raw() {
            self.point1
        } else {
            self.point2
        }
    }

    /// The endpoint with the strictly lesser `y`; `point2` on a tie.
    pub fn lowest_point(&self) -> (p: Point)
        ensures
            p == (if self.point1.y@ < self.point2.y@ {
                self.point1
            } else {
                self.point2
            }),
    {
        if self.point1.y.raw() < self.point2.y.raw() {
            self.point1
        } else {
            self.point2
        }
    }

    /// The endpoint with the strictly lesser `x`; `point2` on a tie.
    pub fn leftmost_point(&self) -> (p: Point)
        ensures
            p == (if self.point1.x@ < self.point2.x@ {
                self.point1
            } else {
                self.point2
            }),
    {
        if self.point1.x.raw() < self.point2.x.raw() {
            self.point1
        } else {
            self.point2
        }
    }

    /// The endpoint with the strictly greater `x`; `point2` on a tie.
    pub fn rightmost_point(&self) -> (p: Point)
        ensures
            p == (if self.point1.x@ > self.point2.x@ {
                self.point1
            } else {
                self.point2
            }),
    {
        if self.point1.x.raw() > self.point2.x.raw() {
            self.point1
        } else {
            self.point2
        }
    }
}

/// A vector, defined by an `(x, y)` direction in fixed point; independent
/// of `Point` despite the same shape.
#[derive(Clone, Copy, Debug, PartialEq, Eq, Structural)]
pub struct Vector {
    pub x: Fixed,
    pub y: Fixed,
}

impl Vector {
    /// Both components within the bound at which products are computed.
    pub open spec fn in_range(self) -> bool {
        vector_in_range(self.x@) && vector_in_range(self.y@)
    }

    /// The sum of the squared raw components: the squared magnitude, at
    /// the doubled scale.
    pub open spec fn norm_squared(self) -> int {
        self.x@ * self.x@ + self.y@ * self.y@
    }

    /// The vector with the given components.
    pub fn new(x: Fixed, y: Fixed) -> (v: Vector)
        ensures
            v.x == x,
            v.y == y,
    {
        Vector { x, y }
    }

    /// The dot product of `self` and `rhs`: the sum of the component-wise
    /// products, truncated to fixed point.
    pub fn dot_product(&self, rhs: &Vector) -> (r: Fixed)
        requires
            self.in_range(),
            rhs.in_range(),
        ensures
            r@ == trunc_div(self.x@ * rhs.x@ + self.y@ * rhs.y@, SCALE as int),
    {
        proof {
            lemma_mul_fits(self.x@, rhs.x@, MAX_VECTOR_COORD as int, MAX_VECTOR_COORD as int);
            lemma_mul_fits(self.y@, rhs.y@, MAX_VECTOR_COORD as int, MAX_VECTOR_COORD as int);
        }
        let n = self.x.raw() as i128 * rhs.x.raw() as i128 + self.y.raw() as i128
            * rhs.y.raw() as i128;
        proof {
            lemma_trunc_div_range(n as int, 65536, 0x2000_0000_0000_0000);
        }
        let q = trunc_div_i128(n, 65536);
        Fixed::from_raw(q as i64)
    }

    /// The magnitude of `self`: the square root of the sum of the squared
    /// components, truncated to fixed point.
    pub fn magnitude(&self) -> (r: Fixed)
        requires
            self.in_range(),
        ensures
            is_floor_sqrt(r@, self.norm_squared()),
    {
        proof {
            lemma_mul_fits(self.x@, self.x@, MAX_VECTOR_COORD as int, MAX_VECTOR_COORD as int);
            lemma_mul_fits(self.y@, self.y@, MAX_VECTOR_COORD as int, MAX_VECTOR_COORD as int);
            assert(self.x@ * self.x@ >= 0) by (nonlinear_arith);
            assert(self.y@ * self.y@ >= 0) by (nonlinear_arith);
        }
        let n = self.x.raw() as i128 * self.x.raw() as i128 + self.y.raw() as i128
            * self.y.raw() as i128;
        let root = isqrt_u128(n as u128);
        proof {
            lemma_root_le(root as int, 0x7FFF_FFFF_FFFF);
        }
        Fixed::from_raw(root as i64)
    }

    /// The cosine of the angle between `self` and `rhs`, in fixed point:
    /// the dot product divided by the product of the truncated magnitudes,
    /// clamped into the cosine range `[-1, 1]` to absorb that truncation.
    ///
    /// `None` when either vector has zero magnitude: the angle is
    /// undefined there, and this library makes the case explicit instead
    /// of yielding an arbitrary value.
    pub fn cosine_between(&self, rhs: &Vector) -> (r: Option<Fixed>)
        requires
            self.in_range(),
            rhs.in_range(),
        ensures
            match r {
                None => self.norm_squared() == 0 || rhs.norm_squared() == 0,
                Some(c) => {
                    &&& self.norm_squared() > 0
                    &&& rhs.norm_squared() > 0
                    &&& exists|m1: int, m2: int|
                        #![trigger is_floor_sqrt(m1, self.norm_squared()), is_floor_sqrt(m2, rhs.norm_squared())]
                        {
                            &&& is_floor_sqrt(m1, self.norm_squared())
                            &&& is_floor_sqrt(m2, rhs.norm_squared())
                            &&& c@ == clamp_cosine(
                                trunc_div(
                                    (self.x@ * rhs.x@ + self.y@ * rhs.y@) * SCALE,
                                    m1 * m2,
                                ),
                            )
                        }
                },
            },
    {
        let m1 = self.magnitude();
        let m2 = rhs.magnitude();
        if m1.raw() == 0 {
            proof {
                assert(self.x@ * self.x@ >= 0) by (nonlinear_arith);
                assert(self.y@ * self.y@ >= 0) by (nonlinear_arith);
                assert(self.norm_squared() == 0) by (nonlinear_arith)
                    requires
                        m1@ == 0,
                        self.norm_squared() < (m1@ + 1) * (m1@ + 1),
                        self.norm_squared() >= 0,
                ;
            }
            return None;
        }
        if m2.raw() == 0 {
            proof {
                assert(rhs.x@ * rhs.x@ >= 0) by (nonlinear_arith);
                assert(rhs.y@ * rhs.y@ >= 0) by (nonlinear_arith);
                assert(rhs.norm_squared() == 0) by (nonlinear_arith)
                    requires
                        m2@ == 0,
                        rhs.norm_squared() < (m2@ + 1) * (m2@ + 1),
                        rhs.norm_squared() >= 0,
                ;
            }
            return None;
        }
        proof {
            lemma_mul_fits(self.x@, self.x@, MAX_VECTOR_COORD as int, MAX_VECTOR_COORD as int);
            lemma_mul_fits(self.y@, self.y@, MAX_VECTOR_COORD as int, MAX_VECTOR_COORD as int);
            lemma_mul_fits(rhs.x@, rhs.x@, MAX_VECTOR_COORD as int, MAX_VECTOR_COORD as int);
            lemma_mul_fits(rhs.y@, rhs.y@, MAX_VECTOR_COORD as int, MAX_VECTOR_COORD as int);
            lemma_root_le(m1@, 0x80_0000_0000);
            lemma_root_le(m2@, 0x80_0000_0000);
            lemma_mul_fits(m1@, m2@, 0x80_0000_0000, 0x80_0000_0000);
            assert(m1@ * m2@ >= 1) by (nonlinear_arith)
                requires
                    m1@ >= 1,
                    m2@ >= 1,
            ;
            lemma_mul_fits(self.x@, rhs.x@, MAX_VECTOR_COORD as int, MAX_VECTOR_COORD as int);
            lemma_mul_fits(self.y@, rhs.y@, MAX_VECTOR_COORD as int, MAX_VECTOR_COORD as int);
        }
        let num = (self.x.raw() as i128 * rhs.x.raw() as i128 + self.y.raw() as i128
            * rhs.y.raw() as i128) * 65536i128;
        let den = m1.raw() as i128 * m2.raw() as i128;
        let q = trunc_div_i128(num, den);
        let c: i64 = if q > 65536 {
            65536
        } else if q < -65536 {
            -65536
        } else {
            q as i64
        };
        proof {
            assert(self.norm_squared() > 0 && rhs.norm_squared() > 0) by {
                assert(m1@ * m1@ >= 1) by (nonlinear_arith)
                    requires
                        m1@ >= 1,
                ;
                assert(m2@ * m2@ >= 1) by (nonlinear_arith)
                    requires
                        m2@ >= 1,
                ;
            }
            assert(is_floor_sqrt(m1@, self.norm_squared()) && is_floor_sqrt(
                m2@,
                rhs.norm_squared(),
            ));
            assert(c as int == clamp_cosine(
                trunc_div((self.x@ * rhs.x@ + self.y@ * rhs.y@) * SCALE, m1@ * m2@),
            ));
        }
        Some(Fixed::from_raw(c))
    }

    /// The component-wise sum of `self` and `other`; commutative.
    pub fn add(self, other: Vector) -> (r: Vector)
        requires
            i64::MIN <= self.x@ + other.x@ <= i64::MAX,
            i64::MIN <= self.y@ + other.y@ <= i64::MAX,
        ensures
            r.x@ == self.x@ + other.x@,
            r.y@ == self.y@ + other.y@,
    {
        Vector {
            x: Fixed::from_raw(self.x.raw() + other.x.raw()),
            y: Fixed::from_raw(self.y.raw() + other.y.raw()),
        }
    }
}

/// Control points for a cubic spline segment.  A scaffold for planned
/// curve support: no algorithm here consumes it.
#[derive(Clone, Copy, Debug, PartialEq, Eq, Structural)]
pub struct SplineKnots {
    pub a: Point,
    pub b: Point,
    pub c: Point,
    pub d: Point,
}

impl SplineKnots {
    /// The knots with the given control points.
    pub fn create(a: &Point, b: &Point, c: &Point, d: &Point) -> (k: SplineKnots)
        ensures
            k.a == *a,
            k.b == *b,
            k.c == *c,
            k.d == *d,
    {
        SplineKnots { a: *a, b: *b, c: *c, d: *d }
    }
}

/// Law: the segments built from two points in either order are equal,
/// whatever the two points.
pub proof fn lemma_from_points_unordered(p1: Point, p2: Point)
    ensures
        seg_eq(
            LineSegment { point1: p1, point2: p2 },
            LineSegment { point1: p2, point2: p1 },
        ),
{
}

/// Law: equal segments have the same midpoint, so the midpoint does not
/// depend on which endpoint is `point1`; this covers vertical and
/// negative-slope segments as well.
pub proof fn lemma_midpoint_unordered(a: LineSegment, b: LineSegment)
    requires
        seg_eq(a, b),
    ensures
        trunc_div(a.point1.x@ + a.point2.x@, 2) == trunc_div(b.point1.x@ + b.point2.x@, 2),
        trunc_div(a.point1.y@ + a.point2.y@, 2) == trunc_div(b.point1.y@ + b.point2.y@, 2),
{
}

/// Law: the slope of any vertical segment (`dx == 0`) is greater than the
/// slope of any non-vertical segment, and equal to the slope of every
/// other vertical segment, regardless of the order of the endpoints.  The
/// comparisons are the cross-multiplications that `slope_lt` and
/// `slope_eq` make on the canonical pairs that `slope()` returns.
pub proof fn lemma_vertical_segment_slope(v: LineSegment, w: LineSegment, f: LineSegment)
    requires
        v.point1.x@ == v.point2.x@,
        w.point1.x@ == w.point2.x@,
        f.point1.x@ != f.point2.x@,
    ensures
        f.slope_rise_spec() * v.slope_run_spec() < v.slope_rise_spec() * f.slope_run_spec(),
        v.slope_rise_spec() * w.slope_run_spec() == w.slope_rise_spec() * v.slope_run_spec(),
{
    assert(v.slope_run_spec() == 0 && v.slope_rise_spec() == 1);
    assert(w.slope_run_spec() == 0 && w.slope_rise_spec() == 1);
    assert(f.slope_run_spec() > 0);
    assert(f.slope_rise_spec() * v.slope_run_spec() == 0) by (nonlinear_arith)
        requires
            v.slope_run_spec() == 0,
    ;
    assert(v.slope_rise_spec() * f.slope_run_spec() == f.slope_run_spec()) by (nonlinear_arith)
        requires
            v.slope_rise_spec() == 1,
    ;
    assert(v.slope_rise_spec() * w.slope_run_spec() == 0) by (nonlinear_arith)
        requires
            w.slope_run_spec() == 0,
    ;
    assert(w.slope_rise_spec() * v.slope_run_spec() == 0) by (nonlinear_arith)
        requires
            v.slope_run_spec() == 0,
    ;
}

/// Law: a vertical slope is greater than every finite slope and equal to
/// every other vertical slope, whichever way the segments they come from
/// are traversed.
pub proof fn lemma_vertical_slope_greatest(v: Slope, w: Slope, f: Slope)
    requires
        v.canonical(),
        v.is_vertical(),
        w.canonical(),
        w.is_vertical(),
        f.canonical(),
        !f.is_vertical(),
    ensures
        slope_lt(f, v),
        !slope_lt(v, f),
        slope_eq(v, w),
        !slope_eq(f, v),
        !slope_eq(v, f),
{
}

} // verus!
