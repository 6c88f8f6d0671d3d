use geom2d::chain::Chain;
use geom2d::dist;
use geom2d::shape::{Point, Segment, Shape, SquaredDistance};
use geom2d::transform::{Similarity, Translation};
use geom2d::vector::Vector;

fn p(x: i64, y: i64) -> Point {
    Point::new(x, y)
}

fn v(x: i64, y: i64) -> Vector {
    Vector::new(x, y)
}

/// The squared distance equals `num / den`.
fn is_ratio(d: SquaredDistance, num: u128, den: u128) -> bool {
    d.num * den == num * d.den
}

#[test]
fn point_as_vector() {
    assert_eq!(p(1, 2).as_vector(), v(1, 2));
}

#[test]
fn vector_to() {
    let p1 = p(1, 2);
    let p2 = p(3, 5);
    assert_eq!(p1.vector_to(p2), v(2, 3));
}

#[test]
fn point_add() {
    assert_eq!(p(1, 2).add(v(-2, 3)), p(-1, 5));
}

#[test]
fn point_sub() {
    assert_eq!(p(1, 2).sub(v(-2, 3)), p(3, -1));
}

#[test]
fn point_add_assign() {
    let mut q = p(1, 2);
    q.add_assign(v(-2, 3));
    assert_eq!(q, p(-1, 5));
}

#[test]
fn point_sub_assign() {
    let mut q = p(1, 2);
    q.sub_assign(v(-2, 3));
    assert_eq!(q, p(3, -1));
}

#[test]
fn point_transform() {
    let mut q = p(1, 2);
    q.transform(&Translation::from_vector(v(-1, -2)));
    assert_eq!(q, Point::origin());
}

#[test]
fn distance() {
    // √2
    assert!(is_ratio(p(1, 3).distance_sq(p(2, 4)), 2, 1));
}

#[test]
fn segment_as_vector() {
    let segment = Segment::new(p(1, 2), p(2, 4));
    assert_eq!(segment.as_vector(), v(1, 2));
}

#[test]
fn length() {
    let segment = Segment::new(p(1, 2), p(2, 4));
    assert!(is_ratio(segment.length_sq(), 5, 1));
}

#[test]
fn distance_to_point_along_line() {
    let segment = Segment::new(p(1, 2), p(2, 3));
    // 1/√2
    assert!(is_ratio(segment.distance_sq_to_point(p(1, 3)), 1, 2));
}

#[test]
fn distance_to_end_point() {
    let segment = Segment::new(p(1, 2), p(2, 3));
    assert!(is_ratio(segment.distance_sq_to_point(p(-1, 2)), 4, 1));
}

#[test]
fn distance_to_degenerate_segment() {
    let segment = Segment::new(p(1, 2), p(1, 2));
    assert!(is_ratio(segment.distance_sq_to_point(p(4, 6)), 25, 1));
}

#[test]
fn horizontal_ray_not_intersectingy() {
    let segment = Segment::new(p(2, 4), p(4, 6));
    assert_eq!(segment.horizontal_ray_intersection_type(p(3, 0)), 0);
}

#[test]
fn horizontal_ray_not_intersecting_x() {
    let segment = Segment::new(p(2, 4), p(4, 6));
    assert_eq!(segment.horizontal_ray_intersection_type(p(6, 5)), 0);
}

#[test]
fn horizontal_ray_intersecting_upwards() {
    let segment = Segment::new(p(2, 4), p(4, 6));
    assert_eq!(segment.horizontal_ray_intersection_type(p(3, 5)), 1);
}

#[test]
fn horizontal_ray_intersecting_downwards() {
    let segment = Segment::new(p(4, 6), p(2, 4));
    assert_eq!(segment.horizontal_ray_intersection_type(p(3, 5)), -1);
}

#[test]
fn horizontal_ray_along_horizontal_edge() {
    let segment = Segment::new(p(0, 0), p(4, 0));
    assert_eq!(segment.horizontal_ray_intersection_type(p(-1, 0)), 0);
}

#[test]
fn segment_transform() {
    let mut segment = Segment::new(p(1, 2), p(2, 4));
    segment.transform(&Similarity::from_translation(Translation::new(1, 0)));
    assert_eq!(segment.start, p(2, 2));
    assert_eq!(segment.end, p(3, 4));
}

fn three_point_chain() -> Chain {
    Chain::new(vec![p(1, 2), p(3, 2), p(4, 3)])
}

#[test]
fn vertices() {
    let chain = three_point_chain();
    let mut vertices = chain.vertices().iter();
    assert_eq!(vertices.next(), Some(&p(1, 2)));
    assert_eq!(vertices.next(), Some(&p(3, 2)));
    assert_eq!(vertices.next(), Some(&p(4, 3)));
    assert_eq!(vertices.next(), None);
}

#[test]
fn vertices_mut() {
    let mut chain = three_point_chain();
    let mut vertices = chain.vertices.iter_mut();
    assert_eq!(vertices.next(), Some(&mut p(1, 2)));
    assert_eq!(vertices.next(), Some(&mut p(3, 2)));
    assert_eq!(vertices.next(), Some(&mut p(4, 3)));
    assert_eq!(vertices.next(), None);
}

#[test]
fn segments() {
    let chain = three_point_chain();
    assert_eq!(chain.num_segments(), 2);
    assert_eq!(chain.segment(0), Segment::new(p(1, 2), p(3, 2)));
    assert_eq!(chain.segment(1), Segment::new(p(3, 2), p(4, 3)));
}

#[test]
fn lengths() {
    let chain = three_point_chain();
    assert_eq!(chain.num_vertices(), 3);
    assert_eq!(chain.num_segments(), 2);
}

#[test]
fn distance_to_point() {
    let chain = three_point_chain();
    // 1/√2
    assert!(is_ratio(chain.distance_sq_to_point(p(3, 3)).unwrap(), 1, 2));
}

#[test]
fn chain_transform() {
    let mut chain = three_point_chain();
    chain.transform(&Similarity::from_translation(Translation::from_vector(v(1, 0))));
    assert_eq!(chain, Chain::new(vec![p(2, 2), p(4, 2), p(5, 3)]));
}

#[test]
fn point_to_point() {
    // √5
    assert!(is_ratio(dist::point_to_point(p(1, 2), p(3, 3)), 5, 1));
}

#[test]
fn point_to_segment() {
    let segment = Segment::new(p(2, 1), p(4, 2));
    // 1/√5
    assert!(is_ratio(dist::point_to_segment(p(3, 2), &segment), 1, 5));
}

#[test]
fn segment_to_segment_case_1() {
    let s1 = Segment::new(p(1, 1), p(2, 3));
    let s2 = Segment::new(p(2, 2), p(4, 3));
    assert!(is_ratio(dist::segment_to_segment(&s1, &s2), 1, 5));
}

#[test]
fn segment_to_segment_case_2() {
    let s1 = Segment::new(p(2, 2), p(4, 3));
    let s2 = Segment::new(p(1, 1), p(2, 3));
    assert!(is_ratio(dist::segment_to_segment(&s1, &s2), 1, 5));
}

#[test]
fn segment_to_segment_parallel() {
    let s1 = Segment::new(p(1, 1), p(2, 3));
    let s2 = Segment::new(p(2, 2), p(3, 4));
    assert!(is_ratio(dist::segment_to_segment(&s1, &s2), 1, 5));
}

#[test]
fn point_to_chain() {
    let c = Chain::new(vec![p(3, 0), p(2, 1), p(4, 2), p(1, -1)]);
    assert!(is_ratio(dist::point_to_chain(p(3, 2), &c).unwrap(), 1, 5));
}

#[test]
fn segment_to_chain() {
    let s = Segment::new(p(1, 1), p(2, 3));
    let c = Chain::new(vec![p(1, 4), p(2, 2), p(4, 3), p(5, 2)]);
    assert!(is_ratio(dist::segment_to_chain(&s, &c).unwrap(), 1, 5));
}

#[test]
fn chain_to_chain() {
    let c1 = Chain::new(vec![p(-1, -2), p(1, 1), p(2, 3), p(-1, 3)]);
    let c2 = Chain::new(vec![p(1, 4), p(2, 2), p(4, 3), p(5, 2)]);
    assert!(is_ratio(dist::chain_to_chain(&c1, &c2).unwrap(), 1, 5));
}

#[test]
fn empty_chain_is_infinitely_far() {
    let empty = Chain::new(vec![]);
    let s = Segment::new(p(1, 1), p(2, 3));
    assert_eq!(dist::point_to_chain(p(0, 0), &empty), None);
    assert_eq!(dist::segment_to_chain(&s, &empty), None);
    assert_eq!(dist::chain_to_chain(&empty, &three_point_chain()), None);
}

#[test]
fn single_vertex_chain_is_a_point() {
    let single = Chain::new(vec![p(4, 6)]);
    assert!(is_ratio(dist::point_to_chain(p(1, 2), &single).unwrap(), 25, 1));
    assert!(is_ratio(dist::point_to_chain(p(4, 6), &single).unwrap(), 0, 1));
}

#[test]
fn point_to_chain_is_zero_exactly_on_the_chain() {
    let c = Chain::new(vec![p(0, 0), p(4, 2), p(4, 6)]);
    assert!(dist::point_to_chain(p(2, 1), &c).unwrap().is_zero());
    assert!(dist::point_to_chain(p(4, 5), &c).unwrap().is_zero());
    assert!(dist::point_to_chain(p(4, 6), &c).unwrap().is_zero());
    assert!(!dist::point_to_chain(p(1, 1), &c).unwrap().is_zero());
    assert!(!dist::point_to_chain(p(6, 3), &c).unwrap().is_zero());
    assert!(!dist::point_to_chain(p(4, 7), &c).unwrap().is_zero());
}

#[test]
fn shape_distances() {
    let a = Shape::Point(p(3, 2));
    let b = Shape::Segment(Segment::new(p(2, 1), p(4, 2)));
    assert!(is_ratio(a.distance_sq(&b), 1, 5));
    assert!(is_ratio(b.distance_sq(&a), 1, 5));
    assert!(is_ratio(a.distance_sq(&Shape::Point(p(0, -2))), 25, 1));
    let mut moved = b;
    moved.transform(&Similarity::from_translation(Translation::new(0, 1)));
    assert_eq!(moved, Shape::Segment(Segment::new(p(2, 2), p(4, 3))));
}

#[test]
fn distance_comparison() {
    let a = SquaredDistance { num: 1, den: 5 };
    let b = SquaredDistance { num: 1, den: 4 };
    assert!(a.le(&b));
    assert!(!b.le(&a));
    assert_eq!(b.min(a), a);
    let _ = dist::point_to_point(p(0, 0), p(1, 1));
    let _ = dist::point_to_segment(p(0, 0), &Segment::new(p(1, 1), p(2, 2)));
}
