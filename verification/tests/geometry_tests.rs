//! Tests of the exact rational arithmetic and the geometry primitives.

use rust_ed::geometry::{BoundingBox, Line2D, Point2D};
use rust_ed::rat::{rat_add, rat_div, rat_eq, rat_lt, rat_mul, rat_sub, Rat};

fn rat(num: i64, den: i64) -> Rat {
    Rat { num, den }
}

fn point(x: i64, y: i64) -> Point2D {
    Point2D::new(Rat::from_int(x), Rat::from_int(y))
}

#[test]
fn rational_arithmetic_is_exact_and_reduced() {
    let half = rat(1, 2);
    let third = rat(1, 3);
    let sum = rat_add(&half, &third).unwrap();
    assert_eq!(sum.num, 5);
    assert_eq!(sum.den, 6);
    let one = rat_add(&half, &half).unwrap();
    assert_eq!(one.num, 1);
    assert_eq!(one.den, 1);
    let d = rat_sub(&half, &third).unwrap();
    assert_eq!((d.num, d.den), (1, 6));
    let p = rat_mul(&rat(2, 3), &rat(9, 4)).unwrap();
    assert_eq!((p.num, p.den), (3, 2));
    let q = rat_div(&rat(1, 2), &rat(-3, 4)).unwrap();
    assert_eq!((q.num, q.den), (-2, 3));
    assert!(rat_lt(&third, &half));
    assert!(!rat_lt(&half, &third));
    assert!(rat_eq(&rat(2, 4), &rat(1, 2)));
}

#[test]
fn rational_arithmetic_reports_range_exhaustion() {
    let big = rat(0x4000_0000_0000_0000, 1);
    assert!(rat_mul(&big, &big).is_none());
    assert!(rat_add(&big, &big).is_none());
}

#[test]
fn classify_point_signed_area() {
    let line = Line2D::new(point(0, 0), point(128, 0));
    let d = line.classify_point(&point(64, 32)).unwrap();
    assert_eq!((d.num, d.den), (-4096, 1));
    let d = line.classify_point(&point(64, -32)).unwrap();
    assert_eq!((d.num, d.den), (4096, 1));
    let d = line.classify_point(&point(64, 0)).unwrap();
    assert_eq!(d.num, 0);
}

#[test]
fn classify_point_overflows_on_huge_coordinates() {
    let line = Line2D::new(point(0x4000_0000_0000_0000, 0), point(-0x4000_0000_0000_0000, 0));
    let r = line.classify_point(&point(0, 1));
    assert_eq!(r, Err(rust_ed::GeometryError::Overflow));
}

#[test]
fn intersect_crossing_lines() {
    let a = Line2D::new(point(0, 0), point(10, 0));
    let b = Line2D::new(point(5, -5), point(5, 5));
    let p = a.intersect(&b).unwrap().unwrap();
    assert_eq!((p.x.num, p.x.den), (5, 1));
    assert_eq!((p.y.num, p.y.den), (0, 1));
}

#[test]
fn intersect_beyond_endpoints_is_still_found() {
    // The lines are infinite: the meeting point may lie outside both
    // defining segments.
    let a = Line2D::new(point(0, 0), point(1, 0));
    let b = Line2D::new(point(100, 1), point(100, 2));
    let p = a.intersect(&b).unwrap().unwrap();
    assert_eq!((p.x.num, p.x.den), (100, 1));
    assert_eq!((p.y.num, p.y.den), (0, 1));
}

#[test]
fn intersect_parallel_lines_is_none() {
    let a = Line2D::new(point(0, 0), point(10, 0));
    let b = Line2D::new(point(0, 1), point(10, 1));
    assert_eq!(a.intersect(&b), Ok(None));
    // Coincident lines have no unique intersection either.
    let c = Line2D::new(point(2, 0), point(7, 0));
    assert_eq!(a.intersect(&c), Ok(None));
}

#[test]
fn intersect_rational_point() {
    // y = x and the vertical x = 3 cross at (3, 3); a skew pair gives a
    // genuinely fractional point.
    let a = Line2D::new(point(0, 0), point(2, 1));
    let b = Line2D::new(point(0, 1), point(1, 0));
    let p = a.intersect(&b).unwrap().unwrap();
    assert_eq!((p.x.num, p.x.den), (2, 3));
    assert_eq!((p.y.num, p.y.den), (1, 3));
}

#[test]
fn on_segment_checks_extent() {
    let l = Line2D::new(point(0, 0), point(10, 10));
    assert!(l.on_segment(&point(5, 5)));
    assert!(l.on_segment(&point(5, 7)));
    assert!(!l.on_segment(&point(11, 5)));
    assert!(!l.on_segment(&point(5, -1)));
}

#[test]
fn bounding_box_expand_combine_queries() {
    let mut bb = BoundingBox::of_point(&point(0, 0));
    bb.expand_point(&Rat::from_int(10), &Rat::from_int(-5));
    assert!(bb.contains_point(&Rat::from_int(5), &Rat::from_int(-2)));
    assert!(!bb.contains_point(&Rat::from_int(5), &Rat::from_int(2)));
    let other = BoundingBox::new(
        Rat::from_int(9),
        Rat::from_int(-1),
        Rat::from_int(20),
        Rat::from_int(4),
    );
    assert!(bb.intersects(&other));
    let far = BoundingBox::new(
        Rat::from_int(11),
        Rat::from_int(0),
        Rat::from_int(20),
        Rat::from_int(4),
    );
    assert!(!bb.intersects(&far));
    bb.combine(&far);
    assert!(bb.contains_point(&Rat::from_int(15), &Rat::from_int(2)));
}
