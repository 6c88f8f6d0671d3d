//! Points, directed segments and open chains, with exact squared distances.
use vstd::prelude::*;
use crate::vector::{
    Vec2, Vector, fits, vadd, vsub, vdot, vcross, vnorm_sq, vscale, lemma_mul_bound,
    lemma_norm_sq_zero,
};
use crate::transform::{Transform, Similarity, sim_map, sim_apply_fits};

verus! {

/// The largest coordinate magnitude accepted by the distance queries; with
/// it every exact squared distance and every comparison of two of them fits
/// in 128 bits.
pub const COORD_LIMIT: i64 = 524288;

pub open spec fn within_limit(v: Vec2) -> bool {
    -COORD_LIMIT <= v.0 <= COORD_LIMIT && -COORD_LIMIT <= v.1 <= COORD_LIMIT
}

/// Whether both coordinates of `point` are within the limit.
pub fn point_within_limit(point: Point) -> (r: bool)
    ensures
        r == within_limit(point@),
{
    -COORD_LIMIT <= point.0.x && point.0.x <= COORD_LIMIT && -COORD_LIMIT <= point.0.y && point.0.y
        <= COORD_LIMIT
}

/// A squared distance held as the exact ratio `num / den`.
#[derive(Debug, Clone, Copy, PartialEq, Eq, Structural)]
pub struct SquaredDistance {
    pub num: u128,
    pub den: u128,
}

impl View for SquaredDistance {
    type V = (int, int);

    open spec fn view(&self) -> (int, int) {
        (self.num as int, self.den as int)
    }
}

/// Ratios small enough that two of them can be compared by cross
/// multiplication in 128 bits.
pub open spec fn ratio_bounded(d: (int, int)) -> bool {
    0 <= d.0 <= 0x10_0000_0000_0000_0000_0000 && 0 < d.1 <= 0x400_0000_0000
}

/// `a <= b` as rational numbers with positive denominators.
pub open spec fn ratio_le(a: (int, int), b: (int, int)) -> bool {
    a.0 * b.1 <= b.0 * a.1
}

/// The smaller of two ratios, the first one on a tie.
pub open spec fn ratio_min(a: (int, int), b: (int, int)) -> (int, int) {
    if ratio_le(a, b) {
        a
    } else {
        b
    }
}

/// The minimum of two optional ratios, where `None` stands for `+∞`.
pub open spec fn opt_min(a: Option<(int, int)>, b: Option<(int, int)>) -> Option<(int, int)> {
    match (a, b) {
        (None, _) => b,
        (_, None) => a,
        (Some(x), Some(y)) => Some(ratio_min(x, y)),
    }
}

impl SquaredDistance {
    /// Whether the distance is exactly zero.
    pub fn is_zero(&self) -> (r: bool)
        ensures
            r == (self.num == 0),
    {
        self.num == 0
    }

    /// Compares two distances as rational numbers.
    pub fn le(&self, other: &SquaredDistance) -> (r: bool)
        requires
            ratio_bounded(self@),
            ratio_bounded(other@),
        ensures
            r == ratio_le(self@, other@),
    {
        proof {
            lemma_mul_bound(self.num as int, other.den as int, 0x10_0000_0000_0000_0000_0000, 0x400_0000_0000);
            lemma_mul_bound(other.num as int, self.den as int, 0x10_0000_0000_0000_0000_0000, 0x400_0000_0000);
        }
        self.num * other.den <= other.num * self.den
    }

    /// The smaller of the two, `self` on a tie.
    pub fn min(self, other: SquaredDistance) -> (r: SquaredDistance)
        requires
            ratio_bounded(self@),
            ratio_bounded(other@),
        ensures
            r@ == ratio_min(self@, other@),
    {
        if self.le(&other) {
            self
        } else {
            other
        }
    }
}

/// The minimum of two optional distances, where `None` stands for `+∞`.
pub fn min_opt(a: Option<SquaredDistance>, b: Option<SquaredDistance>) -> (r: Option<
    SquaredDistance,
>)
    requires
        a matches Some(x) ==> ratio_bounded(x@),
        b matches Some(y) ==> ratio_bounded(y@),
    ensures
        opt_view(r) == opt_min(opt_view(a), opt_view(b)),
        r matches Some(z) ==> ratio_bounded(z@),
{
    match (a, b) {
        (None, _) => b,
        (_, None) => a,
        (Some(x), Some(y)) => Some(x.min(y)),
    }
}

pub open spec fn opt_view(d: Option<SquaredDistance>) -> Option<(int, int)> {
    match d {
        Some(x) => Some(x@),
        None => None,
    }
}

/// The squared distance from `p` to the segment from `a` to `b`: `p` is
/// projected onto the line through the segment, the projection parameter is
/// clamped to `[0, 1]`, and the distance to the clamped point is taken. A
/// segment of length zero is its start point.
pub open spec fn seg_dist_sq(p: Vec2, a: Vec2, b: Vec2) -> (int, int) {
    let d = vsub(b, a);
    let w = vsub(p, a);
    let t = vdot(w, d);
    let len = vnorm_sq(d);
    if t <= 0 {
        (vnorm_sq(w), 1)
    } else if t >= len {
        (vnorm_sq(vsub(p, b)), 1)
    } else {
        (vcross(d, w) * vcross(d, w), len)
    }
}

/// `p` lies on the closed segment from `a` to `b`: `p = a + (k / m)(b - a)`
/// for some integers `0 <= k <= m`, `m > 0`.
pub open spec fn on_segment(p: Vec2, a: Vec2, b: Vec2) -> bool {
    exists|k: int, m: int|
        0 <= k <= m && m > 0 && #[trigger] vscale(vsub(p, a), m) == #[trigger] vscale(vsub(b, a), k)
}

/// A position in the plane.
#[derive(Debug, Clone, Copy, PartialEq, Eq, Structural)]
pub struct Point(pub Vector);

impl View for Point {
    type V = Vec2;

    open spec fn view(&self) -> Vec2 {
        self.0@
    }
}

impl Point {
    pub fn new(x: i64, y: i64) -> (r: Point)
        ensures
            r@ == (x as int, y as int),
    {
        Point(Vector::new(x, y))
    }

    /// The origin of the plane.
    pub fn origin() -> (r: Point)
        ensures
            r@ == (0int, 0int),
    {
        Point(Vector::zero())
    }

    pub fn x(self) -> (r: i64)
        ensures
            r == self@.0,
    {
        self.0.x
    }

    pub fn y(self) -> (r: i64)
        ensures
            r == self@.1,
    {
        self.0.y
    }

    /// The position relative to the origin.
    pub fn as_vector(self) -> (r: Vector)
        ensures
            r@ == self@,
    {
        self.0
    }

    pub fn from_vector(v: Vector) -> (r: Point)
        ensures
            r@ == v@,
    {
        Point(v)
    }

    /// The vector from `self` to `other`.
    pub fn vector_to(self, other: Point) -> (r: Vector)
        requires
            fits(vsub(other@, self@)),
        ensures
            r@ == vsub(other@, self@),
    {
        other.0.sub(self.0)
    }

    /// The squared distance between the two points.
    pub fn distance_sq(self, other: Point) -> (r: SquaredDistance)
        requires
            within_limit(self@),
            within_limit(other@),
        ensures
            r@ == (vnorm_sq(vsub(other@, self@)), 1int),
            ratio_bounded(r@),
    {
        let v = self.vector_to(other);
        proof {
            lemma_small_norm_sq(vsub(other@, self@));
        }
        let n = v.norm_sq();
        SquaredDistance { num: n as u128, den: 1 }
    }

    /// The point moved by `vector`.
    pub fn add(self, vector: Vector) -> (r: Point)
        requires
            fits(vadd(self@, vector@)),
        ensures
            r@ == vadd(self@, vector@),
    {
        Point(self.0.add(vector))
    }

    /// The point moved back by `vector`.
    pub fn sub(self, vector: Vector) -> (r: Point)
        requires
            fits(vsub(self@, vector@)),
        ensures
            r@ == vsub(self@, vector@),
    {
        Point(self.0.sub(vector))
    }

    pub fn add_assign(&mut self, vector: Vector)
        requires
            fits(vadd(old(self)@, vector@)),
        ensures
            final(self)@ == vadd(old(self)@, vector@),
    {
        *self = self.add(vector);
    }

    pub fn sub_assign(&mut self, vector: Vector)
        requires
            fits(vsub(old(self)@, vector@)),
        ensures
            final(self)@ == vsub(old(self)@, vector@),
    {
        *self = self.sub(vector);
    }

    /// Moves the point by the transform `t`.
    pub fn transform<T: Transform>(&mut self, t: &T)
        requires
            t.apply_req(old(self)@),
        ensures
            final(self)@ == t.map(old(self)@),
    {
        *self = Point(t.apply(self.0));
    }
}

/// Differences of coordinates within the limit are at most `2^20`.
pub(crate) proof fn lemma_small_diff(a: Vec2, b: Vec2)
    requires
        within_limit(a),
        within_limit(b),
    ensures
        -0x10_0000 <= vsub(a, b).0 <= 0x10_0000,
        -0x10_0000 <= vsub(a, b).1 <= 0x10_0000,
        fits(vsub(a, b)),
{
}

/// Products and squared lengths of vectors of magnitude at most `2^20`.
pub(crate) proof fn lemma_small_products(u: Vec2, v: Vec2)
    requires
        -0x10_0000 <= u.0 <= 0x10_0000,
        -0x10_0000 <= u.1 <= 0x10_0000,
        -0x10_0000 <= v.0 <= 0x10_0000,
        -0x10_0000 <= v.1 <= 0x10_0000,
    ensures
        -0x200_0000_0000 <= vdot(u, v) <= 0x200_0000_0000,
        -0x200_0000_0000 <= vcross(u, v) <= 0x200_0000_0000,
        0 <= vnorm_sq(u) <= 0x200_0000_0000,
{
    lemma_mul_bound(u.0, v.0, 0x10_0000, 0x10_0000);
    lemma_mul_bound(u.1, v.1, 0x10_0000, 0x10_0000);
    lemma_mul_bound(u.0, v.1, 0x10_0000, 0x10_0000);
    lemma_mul_bound(u.1, v.0, 0x10_0000, 0x10_0000);
    lemma_mul_bound(u.0, u.0, 0x10_0000, 0x10_0000);
    lemma_mul_bound(u.1, u.1, 0x10_0000, 0x10_0000);
    lemma_norm_sq_zero(u);
}

proof fn lemma_small_norm_sq(u: Vec2)
    requires
        -0x10_0000 <= u.0 <= 0x10_0000,
        -0x10_0000 <= u.1 <= 0x10_0000,
    ensures
        0 <= vnorm_sq(u) <= 0x200_0000_0000,
{
    lemma_small_products(u, u);
}

/// Every squared distance to a segment within the limit is small enough to
/// compare.
proof fn lemma_seg_dist_bounded(p: Vec2, a: Vec2, b: Vec2)
    requires
        within_limit(p),
        within_limit(a),
        within_limit(b),
    ensures
        ratio_bounded(seg_dist_sq(p, a, b)),
{
    let d = vsub(b, a);
    let w = vsub(p, a);
    lemma_small_diff(b, a);
    lemma_small_diff(p, a);
    lemma_small_diff(p, b);
    lemma_small_products(d, w);
    lemma_small_products(w, d);
    lemma_small_norm_sq(vsub(p, b));
    let c = vcross(d, w);
    lemma_mul_bound(c, c, 0x200_0000_0000, 0x200_0000_0000);
    assert(c * c >= 0) by (nonlinear_arith);
}

/// A directed segment from `start` to `end`.
#[derive(Debug, Clone, Copy, PartialEq, Eq, Structural)]
pub struct Segment {
    pub start: Point,
    pub end: Point,
}

impl Segment {
    pub fn new(start: Point, end: Point) -> (r: Segment)
        ensures
            r.start == start,
            r.end == end,
    {
        Segment { start, end }
    }

    /// The vector from the start to the end.
    pub fn as_vector(&self) -> (r: Vector)
        requires
            fits(vsub(self.end@, self.start@)),
        ensures
            r@ == vsub(self.end@, self.start@),
    {
        self.start.vector_to(self.end)
    }

    /// The squared length of the segment.
    pub fn length_sq(&self) -> (r: SquaredDistance)
        requires
            within_limit(self.start@),
            within_limit(self.end@),
        ensures
            r@ == (vnorm_sq(vsub(self.end@, self.start@)), 1int),
    {
        self.start.distance_sq(self.end)
    }

    /// The exact squared distance from `point` to the nearest point of the
    /// segment.
    pub fn distance_sq_to_point(&self, point: Point) -> (r: SquaredDistance)
        requires
            within_limit(self.start@),
            within_limit(self.end@),
            within_limit(point@),
        ensures
            r@ == seg_dist_sq(point@, self.start@, self.end@),
            ratio_bounded(r@),
    {
        proof {
            lemma_small_diff(self.end@, self.start@);
            lemma_small_diff(point@, self.start@);
            lemma_small_diff(point@, self.end@);
            lemma_small_products(vsub(self.end@, self.start@), vsub(point@, self.start@));
            lemma_small_products(vsub(point@, self.start@), vsub(self.end@, self.start@));
            lemma_seg_dist_bounded(point@, self.start@, self.end@);
        }
        let d = self.start.vector_to(self.end);
        let w = self.start.vector_to(point);
        let t = w.dot(d);
        let len = d.norm_sq();
        if t <= 0 {
            self.start.distance_sq(point)
        } else if t >= len {
            self.end.distance_sq(point)
        } else {
            let c = d.perp_dot(w);
            proof {
                lemma_mul_bound(c as int, c as int, 0x200_0000_0000, 0x200_0000_0000);
            }
            SquaredDistance { num: (c * c) as u128, den: len as u128 }
        }
    }

    /// Where a ray from `ray_start` in the `+x` direction meets the segment:
    /// `1` if the segment goes upward there, `-1` if it goes downward, `0`
    /// if the ray misses it.
    pub fn horizontal_ray_intersection_type(&self, ray_start: Point) -> (r: i32)
        requires
            within_limit(self.start@),
            within_limit(self.end@),
            within_limit(ray_start@),
        ensures
            r == crossing(ray_start@, self.start@, self.end@),
    {
        let sy = self.start.y() as i128;
        let ey = self.end.y() as i128;
        let dy = ey - sy;
        let h = ray_start.y() as i128 - sy;
        if dy == 0 {
            return 0;
        }
        if dy > 0 && (h < 0 || h > dy) {
            return 0;
        }
        if dy < 0 && (h > 0 || h < dy) {
            return 0;
        }
        let dx = self.end.x() as i128 - self.start.x() as i128;
        let g = ray_start.x() as i128 - self.start.x() as i128;
        proof {
            lemma_mul_bound(h as int, dx as int, 0x10_0000, 0x10_0000);
            lemma_mul_bound(g as int, dy as int, 0x10_0000, 0x10_0000);
        }
        let lhs = h * dx;
        let rhs = g * dy;
        if (dy > 0 && lhs < rhs) || (dy < 0 && lhs > rhs) {
            return 0;
        }
        if dy < 0 {
            -1
        } else {
            1
        }
    }

    /// Moves both end points by the similarity `t`.
    pub fn transform(&mut self, t: &Similarity)
        requires
            sim_apply_fits(t@, old(self).start@),
            sim_apply_fits(t@, old(self).end@),
        ensures
            final(self).start@ == sim_map(t@, old(self).start@),
            final(self).end@ == sim_map(t@, old(self).end@),
    {
        self.start.transform(t);
        self.end.transform(t);
    }
}

/// The contribution of the edge from `a` to `b` to the winding number of
/// `p`: the edge counts where the height of `p` lies in its vertical span,
/// end points included, and the edge passes at or to the right of `p`; it
/// counts `+1` going up and `-1` going down. A horizontal edge never counts.
///
/// With `t = (p.y - a.y) / (b.y - a.y)` in `[0, 1]` the crossing lies at
/// `a.x + t (b.x - a.x)`; both tests are written here multiplied out by
/// `b.y - a.y`.
pub open spec fn crossing(p: Vec2, a: Vec2, b: Vec2) -> int {
    let dy = b.1 - a.1;
    let h = p.1 - a.1;
    let dx = b.0 - a.0;
    let g = p.0 - a.0;
    if dy == 0 {
        0
    } else if dy > 0 && (h < 0 || h > dy) {
        0
    } else if dy < 0 && (h > 0 || h < dy) {
        0
    } else if (dy > 0 && h * dx < g * dy) || (dy < 0 && h * dx > g * dy) {
        0
    } else if dy < 0 {
        -1
    } else {
        1
    }
}

/// A point or a segment.
#[derive(Debug, Clone, Copy, PartialEq, Eq, Structural)]
pub enum Shape {
    Point(Point),
    Segment(Segment),
}

/// All coordinates of the shape are within the limit.
pub open spec fn shape_within_limit(s: Shape) -> bool {
    match s {
        Shape::Point(p) => within_limit(p@),
        Shape::Segment(seg) => within_limit(seg.start@) && within_limit(seg.end@),
    }
}

/// The similarity moves every coordinate of the shape without overflow.
pub open spec fn shape_transform_fits(t: (Vec2, Vec2), s: Shape) -> bool {
    match s {
        Shape::Point(p) => sim_apply_fits(t, p@),
        Shape::Segment(seg) => sim_apply_fits(t, seg.start@) && sim_apply_fits(t, seg.end@),
    }
}

impl Shape {
    /// Moves the shape by the similarity `t`.
    pub fn transform(&mut self, t: &Similarity)
        requires
            shape_transform_fits(t@, *old(self)),
        ensures
            match (*old(self), *final(self)) {
                (Shape::Point(a), Shape::Point(b)) => b@ == sim_map(t@, a@),
                (Shape::Segment(a), Shape::Segment(b)) => b.start@ == sim_map(t@, a.start@)
                    && b.end@ == sim_map(t@, a.end@),
                _ => false,
            },
    {
        match self {
            Shape::Point(p) => {
                *p = Point(t.apply(p.0));
            },
            Shape::Segment(seg) => {
                seg.transform(t);
            },
        }
    }
}

} // verus!
