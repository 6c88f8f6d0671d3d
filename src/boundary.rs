//! Boundaries and which side of them a point lies on.
use vstd::prelude::*;
use crate::vector::{Vec2, vsub, vnorm_sq, lemma_mul_bound};
use crate::shape::{
    Point, COORD_LIMIT, within_limit, point_within_limit, lemma_small_diff, lemma_small_products,
};
use crate::transform::{Similarity, sim_map, sim_apply_fits};
use crate::polygon::{Polygon, winding, polygon_dist_sq};
use crate::chain::{all_within_limit, all_points_within_limit};
use crate::dist::is_zero_dist;

verus! {

/// The sign of a signed distance: negative inside, zero on the boundary,
/// positive outside.
#[derive(Debug, Clone, Copy, PartialEq, Eq, Structural)]
pub enum Side {
    Inside,
    OnBoundary,
    Outside,
}

/// The side of the smaller of two signed distances.
pub open spec fn side_min(a: Side, b: Side) -> Side {
    if a == Side::Inside || b == Side::Inside {
        Side::Inside
    } else if a == Side::OnBoundary || b == Side::OnBoundary {
        Side::OnBoundary
    } else {
        Side::Outside
    }
}

/// The sign of `|p - c| - r`.
pub open spec fn circle_side(p: Vec2, c: Vec2, r: int) -> Side {
    let n = vnorm_sq(vsub(p, c));
    if r < 0 || n > r * r {
        Side::Outside
    } else if n == r * r {
        Side::OnBoundary
    } else {
        Side::Inside
    }
}

/// The sign of `(|p - f1| + |p - f2|) / 2 - a`. With `n1`, `n2` the squared
/// focal distances and `k = (2a)² - n1 - n2`, for `a >= 0` the sum
/// `√n1 + √n2` is below `2a` exactly when `2√(n1 n2) < k`, that is when
/// `k > 0` and `4 n1 n2 < k²`, and equal to it exactly when `k >= 0` and
/// `4 n1 n2 == k²`.
pub open spec fn ellipse_side(p: Vec2, f1: Vec2, f2: Vec2, a: int) -> Side {
    let n1 = vnorm_sq(vsub(p, f1));
    let n2 = vnorm_sq(vsub(p, f2));
    let k = 4 * a * a - n1 - n2;
    if a < 0 || k < 0 || 4 * n1 * n2 > k * k {
        Side::Outside
    } else if 4 * n1 * n2 == k * k {
        Side::OnBoundary
    } else {
        Side::Inside
    }
}

/// The sign of the polygon's signed distance: zero on an edge, negative
/// where the winding number is nonzero.
pub open spec fn polygon_side(p: Vec2, vs: Seq<Vec2>) -> Side {
    if is_zero_dist(polygon_dist_sq(p, vs)) {
        Side::OnBoundary
    } else if winding(p, vs) != 0 {
        Side::Inside
    } else {
        Side::Outside
    }
}

/// A circle around `center`.
#[derive(Debug, Clone, Copy, PartialEq, Eq, Structural)]
pub struct Circle {
    pub center: Point,
    pub radius: i64,
}

impl Circle {
    pub fn new(center: Point, radius: i64) -> (r: Circle)
        ensures
            r.center == center,
            r.radius == radius,
    {
        Circle { center, radius }
    }

    /// A circle around the origin.
    pub fn centered(radius: i64) -> (r: Circle)
        ensures
            r.center@ == (0int, 0int),
            r.radius == radius,
    {
        Circle { center: Point::origin(), radius }
    }

    /// The squared distance from `point` to the center.
    pub fn center_distance_sq(&self, point: Point) -> (r: i128)
        requires
            within_limit(self.center@),
            within_limit(point@),
        ensures
            r == vnorm_sq(vsub(point@, self.center@)),
    {
        proof {
            lemma_small_diff(point@, self.center@);
            lemma_small_products(vsub(point@, self.center@), vsub(point@, self.center@));
        }
        point.as_vector().sub(self.center.as_vector()).norm_sq()
    }

    /// The sign of the signed distance `|point - center| - radius`.
    pub fn side(&self, point: Point) -> (r: Side)
        requires
            within_limit(self.center@),
            within_limit(point@),
        ensures
            r == circle_side(point@, self.center@, self.radius as int),
    {
        let n = self.center_distance_sq(point);
        let r = self.radius as i128;
        proof {
            lemma_mul_bound(r as int, r as int, 0x8000_0000_0000_0000, 0x8000_0000_0000_0000);
        }
        let r2 = r * r;
        if r < 0 || n > r2 {
            Side::Outside
        } else if n == r2 {
            Side::OnBoundary
        } else {
            Side::Inside
        }
    }
}

/// An ellipse: the points whose distances to the two foci average
/// `average_distance`.
#[derive(Debug, Clone, Copy, PartialEq, Eq, Structural)]
pub struct Ellipse {
    pub focus_1: Point,
    pub focus_2: Point,
    pub average_distance: i64,
}

/// The ellipse's data is small enough for exact classification.
pub open spec fn ellipse_within_limit(e: Ellipse) -> bool {
    within_limit(e.focus_1@) && within_limit(e.focus_2@) && -2 * COORD_LIMIT <= e.average_distance
        <= 2 * COORD_LIMIT
}

impl Ellipse {
    pub fn new(focus_1: Point, focus_2: Point, average_distance: i64) -> (r: Ellipse)
        ensures
            r.focus_1 == focus_1,
            r.focus_2 == focus_2,
            r.average_distance == average_distance,
    {
        Ellipse { focus_1, focus_2, average_distance }
    }

    /// The squared distances from `point` to the two foci.
    pub fn focal_distances_sq(&self, point: Point) -> (r: (i128, i128))
        requires
            within_limit(self.focus_1@),
            within_limit(self.focus_2@),
            within_limit(point@),
        ensures
            r.0 == vnorm_sq(vsub(point@, self.focus_1@)),
            r.1 == vnorm_sq(vsub(point@, self.focus_2@)),
            0 <= r.0 <= 0x200_0000_0000,
            0 <= r.1 <= 0x200_0000_0000,
    {
        proof {
            lemma_small_diff(point@, self.focus_1@);
            lemma_small_diff(point@, self.focus_2@);
            lemma_small_products(vsub(point@, self.focus_1@), vsub(point@, self.focus_1@));
            lemma_small_products(vsub(point@, self.focus_2@), vsub(point@, self.focus_2@));
        }
        let v = point.as_vector();
        (v.sub(self.focus_1.as_vector()).norm_sq(), v.sub(self.focus_2.as_vector()).norm_sq())
    }

    /// The sign of the signed distance, the average focal distance minus
    /// `average_distance`.
    pub fn side(&self, point: Point) -> (r: Side)
        requires
            ellipse_within_limit(*self),
            within_limit(point@),
        ensures
            r == ellipse_side(point@, self.focus_1@, self.focus_2@, self.average_distance as int),
    {
        let (n1, n2) = self.focal_distances_sq(point);
        let a = self.average_distance as i128;
        proof {
            lemma_mul_bound(4 * a as int, a as int, 0x40_0000, 0x10_0000);
            lemma_mul_bound(4 * n1 as int, n2 as int, 0x800_0000_0000, 0x200_0000_0000);
        }
        let k = 4 * a * a - n1 - n2;
        proof {
            lemma_mul_bound(k as int, k as int, 0x800_0000_0000, 0x800_0000_0000);
        }
        let m = 4 * n1 * n2;
        if a < 0 || k < 0 || m > k * k {
            Side::Outside
        } else if m == k * k {
            Side::OnBoundary
        } else {
            Side::Inside
        }
    }
}

/// A boundary placed in a composite, with the inverse of the similarity that
/// places it.
#[derive(Debug)]
pub struct Component {
    pub boundary: Boundary,
    pub inverse_transform: Similarity,
}

/// The union of its components.
#[derive(Debug)]
pub struct Composite {
    pub components: Vec<Component>,
}

/// A closed curve that a signed distance is measured against.
#[derive(Debug)]
pub enum Boundary {
    Circle(Circle),
    Ellipse(Ellipse),
    Polygon(Polygon),
    Composite(Composite),
}

/// The side of `p` for boundary `b`.
pub open spec fn boundary_side(b: Boundary, p: Vec2) -> Side
    decreases b, 0int,
{
    match b {
        Boundary::Circle(c) => circle_side(p, c.center@, c.radius as int),
        Boundary::Ellipse(e) => ellipse_side(
            p,
            e.focus_1@,
            e.focus_2@,
            e.average_distance as int,
        ),
        Boundary::Polygon(poly) => polygon_side(p, poly@),
        Boundary::Composite(c) => components_side(c.components@, p, c.components@.len() as int),
    }
}

/// The side of `p` for the union of the first `k` components; with none it
/// is outside, the signed distance being `+∞`.
pub open spec fn components_side(cs: Seq<Component>, p: Vec2, k: int) -> Side
    decreases cs, k,
{
    if k <= 0 || k > cs.len() {
        Side::Outside
    } else {
        side_min(
            components_side(cs, p, k - 1),
            boundary_side(cs[k - 1].boundary, sim_map(cs[k - 1].inverse_transform@, p)),
        )
    }
}

/// Every coordinate that the query meets, mapped through the components'
/// transforms, stays within the limit.
pub open spec fn query_within_limit(b: Boundary, p: Vec2) -> bool
    decreases b, 0int,
{
    match b {
        Boundary::Circle(c) => within_limit(c.center@) && within_limit(p),
        Boundary::Ellipse(e) => ellipse_within_limit(e) && within_limit(p),
        Boundary::Polygon(poly) => all_within_limit(poly@) && within_limit(p),
        Boundary::Composite(c) => components_within_limit(
            c.components@,
            p,
            c.components@.len() as int,
        ),
    }
}

pub open spec fn components_within_limit(cs: Seq<Component>, p: Vec2, k: int) -> bool
    decreases cs, k,
{
    if k <= 0 || k > cs.len() {
        true
    } else {
        components_within_limit(cs, p, k - 1) && sim_apply_fits(cs[k - 1].inverse_transform@, p)
            && query_within_limit(cs[k - 1].boundary, sim_map(cs[k - 1].inverse_transform@, p))
    }
}

proof fn lemma_components_within_limit(cs: Seq<Component>, p: Vec2, k: int, i: int)
    requires
        components_within_limit(cs, p, k),
        0 <= i < k <= cs.len(),
    ensures
        sim_apply_fits(cs[i].inverse_transform@, p),
        query_within_limit(cs[i].boundary, sim_map(cs[i].inverse_transform@, p)),
    decreases k,
{
    if i < k - 1 {
        lemma_components_within_limit(cs, p, k - 1, i);
    }
}

impl Composite {
    /// The composite without components.
    pub fn new() -> (r: Composite)
        ensures
            r.components@.len() == 0,
    {
        Composite { components: Vec::new() }
    }

    /// Adds `boundary`, given the inverse of the similarity that places it.
    pub fn add_component(&mut self, boundary: Boundary, inverse_transform: Similarity)
        ensures
            final(self).components@ == old(self).components@.push(
                Component { boundary, inverse_transform },
            ),
    {
        self.components.push(Component { boundary, inverse_transform });
    }
}

impl Boundary {
    /// Whether `side` can answer for `point`: every coordinate met on the
    /// way, through the components' transforms, is within the limit.
    pub fn accepts(&self, point: Point) -> (r: bool)
        ensures
            r == query_within_limit(*self, point@),
        decreases *self,
    {
        match self {
            Boundary::Circle(c) => point_within_limit(c.center) && point_within_limit(point),
            Boundary::Ellipse(e) => {
                point_within_limit(e.focus_1) && point_within_limit(e.focus_2) && -2 * COORD_LIMIT
                    <= e.average_distance && e.average_distance <= 2 * COORD_LIMIT
                    && point_within_limit(point)
            },
            Boundary::Polygon(poly) => all_points_within_limit(&poly.vertices)
                && point_within_limit(point),
            Boundary::Composite(c) => {
                let n = c.components.len();
                let mut i: usize = 0;
                while i < n
                    invariant
                        n == c.components@.len(),
                        0 <= i <= n,
                        *self == Boundary::Composite(*c),
                        components_within_limit(c.components@, point@, i as int),
                    decreases n - i,
                {
                    let comp = &c.components[i];
                    proof {
                        let cs = c.components;
                        assert(*c == (*self)->Composite_0);
                        assert(decreases_to!(*self => (*self)->Composite_0));
                        assert(decreases_to!(cs@ => cs@[i as int]));
                        if components_within_limit(c.components@, point@, n as int) {
                            lemma_components_within_limit(
                                c.components@,
                                point@,
                                n as int,
                                i as int,
                            );
                        }
                    }
                    match comp.inverse_transform.checked_apply(point.as_vector()) {
                        None => {
                            return false;
                        },
                        Some(q) => {
                            if !comp.boundary.accepts(Point::from_vector(q)) {
                                return false;
                            }
                        },
                    }
                    i += 1;
                }
                true
            },
        }
    }

    /// The sign of the signed distance from `point` to the boundary:
    /// `Inside` where it is negative, `OnBoundary` where it is zero.
    pub fn side(&self, point: Point) -> (r: Side)
        requires
            query_within_limit(*self, point@),
        ensures
            r == boundary_side(*self, point@),
        decreases *self,
    {
        match self {
            Boundary::Circle(c) => c.side(point),
            Boundary::Ellipse(e) => e.side(point),
            Boundary::Polygon(poly) => {
                let d = poly.unsigned_distance_sq(point);
                let on_edge = match d {
                    Some(x) => x.is_zero(),
                    None => false,
                };
                if on_edge {
                    Side::OnBoundary
                } else if poly.winding_number(point) != 0 {
                    Side::Inside
                } else {
                    Side::Outside
                }
            },
            Boundary::Composite(c) => {
                let n = c.components.len();
                let mut acc = Side::Outside;
                let mut i: usize = 0;
                while i < n
                    invariant
                        n == c.components@.len(),
                        0 <= i <= n,
                        *self == Boundary::Composite(*c),
                        components_within_limit(c.components@, point@, n as int),
                        acc == components_side(c.components@, point@, i as int),
                    decreases n - i,
                {
                    let comp = &c.components[i];
                    proof {
                        lemma_components_within_limit(c.components@, point@, n as int, i as int);
                        let cs = c.components;
                        assert(*c == (*self)->Composite_0);
                        assert(decreases_to!(*self => (*self)->Composite_0));
                        assert(decreases_to!(cs@ => cs@[i as int]));
                    }
                    let q = comp.inverse_transform.apply(point.as_vector());
                    let s = comp.boundary.side(Point::from_vector(q));
                    acc = if acc == Side::Inside || s == Side::Inside {
                        Side::Inside
                    } else if acc == Side::OnBoundary || s == Side::OnBoundary {
                        Side::OnBoundary
                    } else {
                        Side::Outside
                    };
                    i += 1;
                }
                acc
            },
        }
    }
}

} // verus!
