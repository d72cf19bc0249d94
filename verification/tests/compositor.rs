use cairus::compositor::{fetch_operator, over, Operator};
use cairus::fixed::Fixed;
use cairus::types::Rgba;

fn fx(v: i64) -> Fixed {
    Fixed::from_int(v)
}

fn half() -> Fixed {
    Fixed::from_ratio(1, 2)
}

#[test]
fn test_over_operator_semi_transparent_source() {
    let source = Rgba::new(fx(1), fx(0), fx(0), half());
    let mut destination = Rgba::new(fx(0), fx(1), fx(0), half());
    over(&source, &mut destination);

    // This result was computed by hand: the blend of two half-transparent
    // colors is exactly (2/3, 1/3, 0) with alpha 3/4, truncated to fixed
    // point.
    let expected = Rgba::new(
        Fixed::from_ratio(2, 3),
        Fixed::from_ratio(1, 3),
        fx(0),
        Fixed::from_ratio(3, 4),
    );
    assert_eq!(destination, expected);
}

#[test]
fn test_over_operator_opaque_source() {
    let source = Rgba::new(fx(1), fx(0), fx(0), fx(1));
    let mut destination = Rgba::new(fx(0), fx(1), fx(1), half());
    over(&source, &mut destination);
    assert_eq!(destination, Rgba::new(fx(1), fx(0), fx(0), fx(1)));
}

#[test]
fn test_over_operator_opaque_destination() {
    let source = Rgba::new(fx(0), fx(0), fx(1), half());
    let mut destination = Rgba::new(fx(0), fx(1), fx(0), fx(1));
    over(&source, &mut destination);
    assert_eq!(destination, Rgba::new(fx(0), half(), half(), fx(1)));
}

#[test]
fn test_fetch_operator() {
    let source = Rgba::new(fx(1), fx(0), fx(0), half());
    let destination = Rgba::new(fx(0), fx(1), fx(0), half());

    let myop = Operator::Over;
    let operator = fetch_operator(&myop);
    let destination = operator(source, destination);

    // This result was computed by hand; see
    // test_over_operator_semi_transparent_source.
    let expected = Rgba::new(
        Fixed::from_ratio(2, 3),
        Fixed::from_ratio(1, 3),
        fx(0),
        Fixed::from_ratio(3, 4),
    );
    assert_eq!(destination, expected);
}
