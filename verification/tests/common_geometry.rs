use cairus::common_geometry::{LineSegment, Point, Slope, Vector};
use cairus::fixed::Fixed;

fn fx(v: i64) -> Fixed {
    Fixed::from_int(v)
}

// Tests that point subtraction is working.
#[test]
fn point_subtraction() {
    let p1 = Point { x: fx(0), y: fx(0) };
    let p2 = Point { x: fx(1), y: fx(1) };
    assert_eq!(p1.sub(p2), Point { x: fx(-1), y: fx(-1) });
}

// Tests that LineSegment's constructor is working.
#[test]
fn line_new() {
    let line = LineSegment::new(fx(0), fx(0), fx(1), fx(1));
    assert_eq!(line.point1, Point { x: fx(0), y: fx(0) });
    assert_eq!(line.point2, Point { x: fx(1), y: fx(1) });
}

// Tests that LineSegment's `from_points` alternative constructor is working
#[test]
fn line_from_points() {
    let p1 = Point { x: fx(0), y: fx(0) };
    let p2 = Point { x: fx(1), y: fx(1) };
    let line = LineSegment::from_points(p1, p2);
    assert_eq!(line.point1, Point { x: fx(0), y: fx(0) });
    assert_eq!(line.point2, Point { x: fx(1), y: fx(1) });
}

// Tests that LineSegment's highest/lowest/leftmost/rightmost point functions work
#[test]
fn line_query_functions() {
    let p1 = Point { x: fx(0), y: fx(0) };
    let p2 = Point { x: fx(1), y: fx(1) };
    let line = LineSegment::from_points(p1, p2);
    assert_eq!(line.leftmost_point(), p1);
    assert_eq!(line.lowest_point(), p1);
    assert_eq!(line.rightmost_point(), p2);
    assert_eq!(line.highest_point(), p2);
}

// Tests that LineSegment Eq implementation is working
#[test]
fn line_eq() {
    let p1 = Point { x: fx(0), y: fx(0) };
    let p2 = Point { x: fx(1), y: fx(1) };
    let line1 = LineSegment::from_points(p1, p2);
    let line2 = LineSegment::from_points(p1, p2);

    assert_eq!(line1, line2);
}

// Tests that lines are equal even when the endpoints are switched
#[test]
fn line_eq_opposite() {
    let p1 = Point { x: fx(0), y: fx(0) };
    let p2 = Point { x: fx(1), y: fx(1) };
    let line1 = LineSegment::from_points(p1, p2);
    let line2 = LineSegment::from_points(p2, p1);

    assert_eq!(line1, line2);
}

// Tests that the simple case for LineSegment::slope() is working.
#[test]
fn line_slope() {
    let line = LineSegment::new(fx(0), fx(0), fx(1), fx(1));
    assert_eq!(line.slope(), Slope::ratio(1, 1));
}

// Tests that the simple case for LineSegment::midpoint() is working.
#[test]
fn line_midpoint() {
    let line = LineSegment::new(fx(0), fx(0), fx(2), fx(2));
    assert_eq!(line.midpoint(), Point { x: fx(1), y: fx(1) });
}

// Tests that LineSegment::midpoint() is working when point2's x-value is less than point1's.
#[test]
fn line_opposite_direction_midpoint() {
    let line = LineSegment::new(fx(2), fx(2), fx(0), fx(0));
    assert_eq!(line.midpoint(), Point { x: fx(1), y: fx(1) });
}

// Tests that midpoint works for lines with negative slope
#[test]
fn line_negative_slope_midpoint() {
    let line = LineSegment::new(fx(0), fx(0), fx(2), fx(-2));
    assert_eq!(line.midpoint(), Point { x: fx(1), y: fx(-1) });
}

// Tests that midpoint works for vertical lines
#[test]
fn vertical_line_midpoint() {
    let line = LineSegment::new(fx(0), fx(0), fx(0), fx(2));
    assert_eq!(line.midpoint(), Point { x: fx(0), y: fx(1) });
}

// Tests that midpoint works for negative vertical lines
#[test]
fn vertical_negative_slope_midpoint() {
    let line = LineSegment::new(fx(0), fx(0), fx(0), fx(-2));
    assert_eq!(line.midpoint(), Point { x: fx(0), y: fx(-1) });
}

// Tests greater than slope comparison
#[test]
fn vertical_slope_gt_positive() {
    let vertical = LineSegment::new(fx(0), fx(0), fx(0), fx(1));
    let positive = LineSegment::new(fx(0), fx(0), fx(1), fx(1));
    assert!(vertical.slope() > positive.slope());
}

// Tests greater than slope comparison with one negative slope
#[test]
fn vertical_slope_gt_negative() {
    let vertical = LineSegment::new(fx(0), fx(0), fx(0), fx(1));
    let negative = LineSegment::new(fx(0), fx(0), fx(1), fx(-1));
    assert!(vertical.slope() > negative.slope());
}

// Tests equality of slopes
#[test]
fn vertical_slope_eq_vertical() {
    let vertical1 = LineSegment::new(fx(0), fx(0), fx(0), fx(1));
    let vertical2 = LineSegment::new(fx(2), fx(2), fx(2), fx(-1));
    assert_eq!(vertical1.slope(), vertical2.slope());
}

// Tests Vector::new()
#[test]
fn vector_new() {
    let vec = Vector::new(fx(1), fx(1));
    assert_eq!(vec.x, fx(1));
    assert_eq!(vec.y, fx(1));
}

// Tests Vector addition
#[test]
fn vector_add() {
    let a = Vector::new(fx(0), fx(0));
    let b = Vector::new(fx(1), fx(1));
    let c = a.add(b);
    assert_eq!(c, b);
}

// Tests Vector::dot_product()
#[test]
fn vector_dot_product() {
    let a = Vector::new(fx(1), fx(0));
    let b = Vector::new(fx(1), fx(1));
    let c = a.dot_product(&b);
    assert_eq!(c, fx(1));
}

// Tests Vector::magnitude()
#[test]
fn vector_magnitude() {
    let b = Vector::new(fx(3), fx(4));
    assert_eq!(b.magnitude(), fx(5));
}

#[test]
fn line_into_pixel_coordinates_slope_lt_one() {
    // The following coordinates were calculated by hand to be known pixels in the defined
    // line.
    let line = LineSegment::new(fx(0), fx(0), fx(20), fx(5));
    let expected = vec![(1, 0), (2, 0), (3, 0), (4, 1), (5, 1), (6, 1)];

    let pixel_coordinates = line.into_pixel_coordinates();
    for coordinate in expected {
        assert!(pixel_coordinates.contains(&coordinate));
    }
}

#[test]
fn line_into_pixel_coordinates_slope_gt_one() {
    // The following coordinates were calculated by hand to be known pixels in the defined
    // line.
    let line = LineSegment::new(fx(0), fx(0), fx(5), fx(20));
    let expected = vec![(0, 1), (0, 2), (0, 3), (1, 4), (1, 5), (1, 6), (1, 7)];

    let pixel_coordinates = line.into_pixel_coordinates();
    for coordinate in expected {
        assert!(pixel_coordinates.contains(&coordinate));
    }
}

#[test]
fn line_with_negative_slope() {
    let line = LineSegment {
        point1: Point { x: fx(3), y: fx(2) },
        point2: Point { x: fx(4), y: fx(0) },
    };
    for pixel in line.into_pixel_coordinates() {
        let x = pixel.0;
        let y = pixel.1;
        assert!(y >= 0);
        assert!(x >= 0);
    }
}

// Passes if LineSegment::length() works
#[test]
fn line_length() {
    let line = LineSegment::new(fx(0), fx(0), fx(2), fx(2));
    assert_eq!(line.length(), Some(fx(2)));
}
