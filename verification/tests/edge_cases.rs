use cairus::common_geometry::{LineSegment, Point, Slope, SplineKnots, Vector};
use cairus::compositor::over;
use cairus::fixed::Fixed;
use cairus::types::Rgba;

fn fx(v: i64) -> Fixed {
    Fixed::from_int(v)
}

// Construction clamps channels above the unit range down to one.
#[test]
fn rgba_clamps_high_channels() {
    assert_eq!(Rgba::new(fx(3), fx(3), fx(3), fx(3)), Rgba::new(fx(1), fx(1), fx(1), fx(1)));
}

// Construction clamps channels below the unit range up to zero.
#[test]
fn rgba_clamps_low_channels() {
    assert_eq!(
        Rgba::new(fx(-3), fx(-3), fx(-3), fx(-3)),
        Rgba::new(fx(0), fx(0), fx(0), fx(0))
    );
}

// to_int truncates: one half of 255 becomes 127, not 128.
#[test]
fn rgba_to_int_truncates() {
    let h = Fixed::from_ratio(1, 2);
    let c = Rgba::new(h, h, h, h);
    assert_eq!(c.to_int(), (127, 127, 127, 127));
}

// Full channels convert to 255.
#[test]
fn rgba_to_int_full() {
    let c = Rgba::new(fx(1), fx(1), fx(1), fx(1));
    assert_eq!(c.to_int(), (255, 255, 255, 255));
}

// Blending two fully transparent colors yields transparent black.
#[test]
fn over_fully_transparent_is_transparent_black() {
    let source = Rgba::new(fx(1), fx(0), fx(0), fx(0));
    let mut destination = Rgba::new(fx(0), fx(1), fx(0), fx(0));
    over(&source, &mut destination);
    assert_eq!(destination, Rgba::new(fx(0), fx(0), fx(0), fx(0)));
}

// The length convention takes the square root of dx + dy, which has no
// real value when that sum is negative.
#[test]
fn line_length_negative_sum() {
    let line = LineSegment::new(fx(0), fx(0), fx(-2), fx(-2));
    assert_eq!(line.length(), None);
}

// Slopes with proportional deltas are equal.
#[test]
fn slope_proportional_deltas_equal() {
    assert_eq!(Slope::ratio(1, 2), Slope::ratio(2, 4));
    let shallow = LineSegment::new(fx(0), fx(0), fx(2), fx(1));
    assert_eq!(shallow.slope(), Slope::ratio(1, 2));
}

// One half in fixed point has raw part 32768.
#[test]
fn fixed_from_ratio_truncates() {
    assert_eq!(Fixed::from_ratio(1, 2).raw(), 32768);
    assert_eq!(Fixed::from_ratio(1, 3).raw(), 21845);
    assert_eq!(Fixed::from_ratio(-1, 3).raw(), -21845);
}

// The midpoint of a unit diagonal has half-unit coordinates.
#[test]
fn line_midpoint_fractional() {
    let line = LineSegment::new(fx(0), fx(0), fx(1), fx(1));
    let h = Fixed::from_ratio(1, 2);
    assert_eq!(line.midpoint(), Point { x: h, y: h });
}

// A vertical segment rasterizes to nothing: both walk endpoints resolve
// to point2 on the x tie, so the walk is empty.
#[test]
fn vertical_line_rasterizes_empty() {
    let line = LineSegment::new(fx(0), fx(0), fx(0), fx(5));
    assert_eq!(line.into_pixel_coordinates().len(), 0);
}

// The rasterizer emits exactly floor(steps) pixels.
#[test]
fn pixel_count_is_dominant_delta() {
    let line = LineSegment::new(fx(0), fx(0), fx(20), fx(5));
    assert_eq!(line.into_pixel_coordinates().len(), 20);
}

// The cosine of the angle between a zero vector and anything is undefined.
#[test]
fn cosine_with_zero_vector_undefined() {
    let zero = Vector::new(fx(0), fx(0));
    let unit = Vector::new(fx(1), fx(0));
    assert_eq!(zero.cosine_between(&unit), None);
    assert_eq!(unit.cosine_between(&zero), None);
}

// The cosine between (1,0) and (1,1): the fixed-point form of 1/sqrt(2),
// computed against the truncated magnitude 92681 = floor(65536 * sqrt(2)).
#[test]
fn cosine_of_forty_five_degrees() {
    let a = Vector::new(fx(1), fx(0));
    let b = Vector::new(fx(1), fx(1));
    assert_eq!(a.cosine_between(&b), Some(Fixed::from_raw(46341)));
}

// The cosine of parallel vectors is exactly one.
#[test]
fn cosine_of_parallel_vectors() {
    let a = Vector::new(fx(2), fx(0));
    let b = Vector::new(fx(5), fx(0));
    assert_eq!(a.cosine_between(&b), Some(fx(1)));
}

// The cosine of opposite vectors is exactly minus one.
#[test]
fn cosine_of_opposite_vectors() {
    let a = Vector::new(fx(1), fx(0));
    let b = Vector::new(fx(-1), fx(0));
    assert_eq!(a.cosine_between(&b), Some(fx(-1)));
}

// Endpoint queries resolve ties to point2: the comparisons are strict.
#[test]
fn endpoint_ties_resolve_to_point2() {
    let p1 = Point { x: fx(1), y: fx(1) };
    let p2 = Point { x: fx(1), y: fx(1) };
    let line = LineSegment::from_points(p1, p2);
    assert_eq!(line.highest_point(), line.point2);
    assert_eq!(line.lowest_point(), line.point2);
    assert_eq!(line.leftmost_point(), line.point2);
    assert_eq!(line.rightmost_point(), line.point2);
}

// Slope normalization makes the run nonnegative.
#[test]
fn slope_parts_are_canonical() {
    assert_eq!(Slope::ratio(1, -2).parts(), (-1, 2));
    assert_eq!(Slope::ratio(5, 0).parts(), (1, 0));
}

// SplineKnots carries its four control points.
#[test]
fn spline_knots_create() {
    let a = Point { x: fx(0), y: fx(0) };
    let b = Point { x: fx(1), y: fx(2) };
    let c = Point { x: fx(3), y: fx(4) };
    let d = Point { x: fx(5), y: fx(6) };
    let knots = SplineKnots::create(&a, &b, &c, &d);
    assert_eq!(knots.a, a);
    assert_eq!(knots.b, b);
    assert_eq!(knots.c, c);
    assert_eq!(knots.d, d);
}

// Rasterization of a negative-slope segment, checked pixel by pixel.
#[test]
fn negative_slope_pixels_exact() {
    let line = LineSegment::new(fx(3), fx(2), fx(4), fx(0));
    assert_eq!(line.into_pixel_coordinates(), vec![(3, 1), (4, 0)]);
}
