use geom2d::boundary::{Boundary, Circle, Composite, Ellipse, Side};
use geom2d::polygon::{Polygon, PolygonError};
use geom2d::shape::{Point, SquaredDistance, COORD_LIMIT};
use geom2d::transform::{ScaledRotation, Similarity, Translation};
use geom2d::vector::Vector;

fn p(x: i64, y: i64) -> Point {
    Point::new(x, y)
}

fn is_ratio(d: SquaredDistance, num: u128, den: u128) -> bool {
    d.num * den == num * d.den
}

fn polygon(vertices: &[(i64, i64)]) -> Polygon {
    Polygon::from_vertices(vertices.iter().map(|&(x, y)| p(x, y)).collect())
}

/// Checks the exact signed distance: its sign and its square `num / den`.
fn signed_is(poly: &Polygon, q: Point, negative: bool, num: u128, den: u128) -> bool {
    let d = poly.signed_distance(q);
    d.negative == negative && is_ratio(d.magnitude_sq.unwrap(), num, den)
}

#[test]
fn circle_should_return_correct_signed_distances() {
    let circle = Circle::new(p(3, 0), 2);
    // |(1, 2) - (3, 0)| - 2 = √8 - 2 ≈ 0.8284271
    assert_eq!(circle.center_distance_sq(p(1, 2)), 8);
    assert_eq!(circle.side(p(1, 2)), Side::Outside);
    // √4 - 2 = 0
    assert_eq!(circle.center_distance_sq(p(3, 2)), 4);
    assert_eq!(circle.side(p(3, 2)), Side::OnBoundary);
    // √2 - 2 ≈ -0.58578646
    assert_eq!(circle.center_distance_sq(p(2, 1)), 2);
    assert_eq!(circle.side(p(2, 1)), Side::Inside);
}

#[test]
fn signed_distance_positive() {
    let circle = Circle::new(p(1, 1), 1);
    assert_eq!(circle.center_distance_sq(Point::origin()), 2);
    assert_eq!(circle.side(Point::origin()), Side::Outside);
}

#[test]
fn signed_distance_zero() {
    let circle = Circle::new(p(1, 1), 1);
    assert_eq!(circle.side(p(1, 0)), Side::OnBoundary);
}

#[test]
fn signed_distance_negative() {
    let circle = Circle::new(p(1, 1), 1);
    assert_eq!(circle.center_distance_sq(p(1, 1)), 0);
    assert_eq!(circle.side(p(1, 1)), Side::Inside);
}

#[test]
fn circle_with_negative_radius_has_no_inside() {
    let circle = Circle::centered(-1);
    assert_eq!(circle.side(Point::origin()), Side::Outside);
}

#[test]
fn ellipse_should_return_correct_signed_distances() {
    let ellipse = Ellipse::new(p(-1, 0), p(1, 0), 2);
    // (3 + 1) / 2 - 2 = 0
    assert_eq!(ellipse.focal_distances_sq(p(2, 0)), (9, 1));
    assert_eq!(ellipse.side(p(2, 0)), Side::OnBoundary);
    // (4 + 2) / 2 - 2 = 1
    assert_eq!(ellipse.side(p(3, 0)), Side::Outside);
    // (2 + 0) / 2 - 2 = -1
    assert_eq!(ellipse.focal_distances_sq(p(1, 0)), (4, 0));
    assert_eq!(ellipse.side(p(1, 0)), Side::Inside);
    // (√13 + √5) / 2 - 2 ≈ 0.92080975
    assert_eq!(ellipse.focal_distances_sq(p(2, 2)), (13, 5));
    assert_eq!(ellipse.side(p(2, 2)), Side::Outside);
}

#[test]
fn should_return_correct_signed_distances_for_convex_polygons() {
    let polygon = polygon(&[(-2, -1), (2, -4), (5, -1), (3, 3), (-1, 2)]);
    // √(36/17) ≈ 1.4552137
    assert!(signed_is(&polygon, p(1, 4), false, 36, 17));
    assert!(polygon.signed_distance(p(3, -3)).magnitude_sq.unwrap().is_zero());
    // -√(49/17) ≈ -1.6977493
    assert!(signed_is(&polygon, p(2, 1), true, 49, 17));
}

#[test]
fn should_return_correct_signed_distances_for_simple_polygons() {
    let polygon = polygon(&[(-2, -1), (2, -3), (4, 1), (1, 0), (-1, 3)]);
    // √(4/13) ≈ 0.5547002
    assert!(signed_is(&polygon, p(1, 1), false, 4, 13));
    assert!(polygon.signed_distance(p(3, -1)).magnitude_sq.unwrap().is_zero());
    // -√(4/17) ≈ -0.4850712
    assert!(signed_is(&polygon, p(-1, 1), true, 4, 17));
}

#[test]
fn should_return_correct_signed_distances_for_complex_polygons() {
    let polygon = polygon(&[(-2, 0), (2, -2), (2, 0), (-2, -2)]);
    // √(16/20) ≈ 0.8944272
    assert!(signed_is(&polygon, p(0, 0), false, 16, 20));
    assert!(polygon.signed_distance(p(0, -1)).magnitude_sq.unwrap().is_zero());
    // -√(4/20) ≈ -0.4472136
    assert!(signed_is(&polygon, p(-1, -1), true, 4, 20));
}

#[test]
fn degenerate_polygons_are_infinitely_far_outside() {
    for poly in [polygon(&[]), polygon(&[(1, 1)])] {
        let d = poly.signed_distance(p(0, 0));
        assert!(!d.negative);
        assert_eq!(d.magnitude_sq, None);
        assert_eq!(Boundary::Polygon(poly).side(p(0, 0)), Side::Outside);
    }
    assert_eq!(Polygon::new().num_edges(), 0);
}

#[test]
fn reversed_polygon_negates_winding_and_keeps_distance() {
    let vertices = [(-2, -1), (2, -4), (5, -1), (3, 3), (-1, 2)];
    let forward = polygon(&vertices);
    let mut reversed_vertices = vertices.to_vec();
    reversed_vertices.reverse();
    let backward = polygon(&reversed_vertices);
    for q in [p(1, 4), p(2, 1), p(3, -3), p(-5, 0)] {
        assert_eq!(backward.winding_number(q), -forward.winding_number(q));
        let a = forward.unsigned_distance_sq(q).unwrap();
        let b = backward.unsigned_distance_sq(q).unwrap();
        assert_eq!(a.num * b.den, b.num * a.den);
    }
    assert_eq!(forward.winding_number(p(2, 1)), 1);
    assert_eq!(backward.winding_number(p(2, 1)), -1);
}

#[test]
fn boundary_dispatch() {
    let circle = Boundary::Circle(Circle::new(p(3, 0), 2));
    assert_eq!(circle.side(p(2, 1)), Side::Inside);
    let ellipse = Boundary::Ellipse(Ellipse::new(p(-1, 0), p(1, 0), 2));
    assert_eq!(ellipse.side(p(2, 0)), Side::OnBoundary);
    let poly = Boundary::Polygon(polygon(&[(-2, -1), (2, -4), (5, -1), (3, 3), (-1, 2)]));
    assert_eq!(poly.side(p(1, 4)), Side::Outside);
    assert_eq!(poly.side(p(3, -3)), Side::OnBoundary);
    assert_eq!(poly.side(p(2, 1)), Side::Inside);
}

#[test]
fn composite_is_the_union_of_its_components() {
    let mut composite = Composite::new();
    assert_eq!(
        Boundary::Composite(Composite::new()).side(p(0, 0)),
        Side::Outside
    );
    // a unit circle placed at (10, 0): its inverse moves points back by (-10, 0)
    composite.add_component(
        Boundary::Circle(Circle::centered(1)),
        Similarity::from_translation(Translation::new(-10, 0)),
    );
    // a circle of radius 2 at the origin, placed without moving
    composite.add_component(
        Boundary::Circle(Circle::centered(2)),
        Similarity::ident(),
    );
    let boundary = Boundary::Composite(composite);
    assert_eq!(boundary.side(p(10, 0)), Side::Inside);
    assert_eq!(boundary.side(p(11, 0)), Side::OnBoundary);
    assert_eq!(boundary.side(p(0, 1)), Side::Inside);
    assert_eq!(boundary.side(p(5, 0)), Side::Outside);
    let _ = ScaledRotation::ident();
    let _ = Vector::zero();
}

#[test]
fn nested_composite() {
    let mut inner = Composite::new();
    inner.add_component(Boundary::Circle(Circle::centered(1)), Similarity::ident());
    let mut outer = Composite::new();
    // the inner composite rotated by a quarter turn and moved to (0, 5)
    let inverse = Similarity::new(ScaledRotation::new(Vector::new(0, -1)), Translation::new(-5, 0));
    outer.add_component(Boundary::Composite(inner), inverse);
    let boundary = Boundary::Composite(outer);
    assert_eq!(boundary.side(p(0, 5)), Side::Inside);
    assert_eq!(boundary.side(p(1, 5)), Side::OnBoundary);
    assert_eq!(boundary.side(p(0, 0)), Side::Outside);
}

#[test]
fn validated_polygon_needs_three_vertices() {
    assert_eq!(
        Polygon::try_new(vec![p(0, 0), p(1, 0)]).unwrap_err(),
        PolygonError::TooFewVertices(2)
    );
    assert_eq!(Polygon::try_new(vec![]).unwrap_err(), PolygonError::TooFewVertices(0));
    let triangle = Polygon::try_new(vec![p(0, 0), p(4, 0), p(0, 4)]).unwrap();
    assert_eq!(triangle.num_edges(), 3);
    assert_eq!(triangle.winding_number(p(1, 1)), 1);
    assert_eq!(triangle.edge(2).end, p(0, 0));
}

#[test]
fn accepts_checks_the_coordinate_limit() {
    let circle = Boundary::Circle(Circle::new(p(0, 0), 1));
    assert!(circle.accepts(p(COORD_LIMIT, -COORD_LIMIT)));
    assert!(!circle.accepts(p(COORD_LIMIT + 1, 0)));
    let far = Boundary::Polygon(polygon(&[(0, 0), (COORD_LIMIT + 1, 0), (0, 1)]));
    assert!(!far.accepts(p(0, 0)));
    let ellipse = Boundary::Ellipse(Ellipse::new(p(0, 0), p(1, 0), 2 * COORD_LIMIT + 1));
    assert!(!ellipse.accepts(p(0, 0)));
    let mut composite = Composite::new();
    composite.add_component(
        Boundary::Circle(Circle::centered(1)),
        Similarity::from_scaled_rotation(ScaledRotation::new(Vector::new(2, 0))),
    );
    let boundary = Boundary::Composite(composite);
    assert!(boundary.accepts(p(COORD_LIMIT / 2, 0)));
    // the component's transform doubles the point past the limit
    assert!(!boundary.accepts(p(COORD_LIMIT / 2 + 1, 0)));
}
