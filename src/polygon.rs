//! Closed polygons: winding numbers and signed distances.
use vstd::prelude::*;
use crate::vector::Vec2;
use crate::vector::{vsub, vdot, vcross, vnorm_sq};
use crate::shape::{
    Point, Segment, SquaredDistance, within_limit, seg_dist_sq, crossing, opt_min, opt_view,
    min_opt, ratio_bounded, ratio_le,
};
use crate::dist::lemma_seg_dist_sign;
use crate::chain::all_within_limit;

verus! {

/// The number of edges of a polygon with `n` vertices; fewer than two
/// vertices make no edge.
pub open spec fn num_edges(n: int) -> int {
    if n < 2 {
        0
    } else {
        n
    }
}

/// The edge from vertex `i` to the next one, the last vertex closing back to
/// the first.
pub open spec fn edge(vs: Seq<Vec2>, i: int) -> (Vec2, Vec2) {
    (vs[i], if i + 1 < vs.len() {
        vs[i + 1]
    } else {
        vs[0]
    })
}

/// The sum of the crossing contributions of the first `k` edges.
pub open spec fn winding_upto(p: Vec2, vs: Seq<Vec2>, k: int) -> int
    decreases k,
{
    if k <= 0 {
        0
    } else {
        winding_upto(p, vs, k - 1) + crossing(p, edge(vs, k - 1).0, edge(vs, k - 1).1)
    }
}

/// The net number of times the ray from `p` in the `+x` direction crosses
/// the polygon's edges, counted `+1` upward and `-1` downward.
pub open spec fn winding(p: Vec2, vs: Seq<Vec2>) -> int {
    winding_upto(p, vs, num_edges(vs.len() as int))
}

/// The smallest squared distance from `p` to the first `k` edges.
pub open spec fn edge_dist_upto(p: Vec2, vs: Seq<Vec2>, k: int) -> Option<(int, int)>
    decreases k,
{
    if k <= 0 {
        None
    } else {
        opt_min(
            edge_dist_upto(p, vs, k - 1),
            Some(seg_dist_sq(p, edge(vs, k - 1).0, edge(vs, k - 1).1)),
        )
    }
}

/// The squared distance from `p` to the nearest edge; `None`, standing for
/// `+∞`, for a polygon without edges.
pub open spec fn polygon_dist_sq(p: Vec2, vs: Seq<Vec2>) -> Option<(int, int)> {
    edge_dist_upto(p, vs, num_edges(vs.len() as int))
}

/// A signed distance held exactly: its sign and the square of its
/// magnitude, where a magnitude of `None` stands for `+∞`.
#[derive(Debug, Clone, Copy, PartialEq, Eq, Structural)]
pub struct SignedSquaredDistance {
    pub negative: bool,
    pub magnitude_sq: Option<SquaredDistance>,
}

/// Why a list of vertices was refused as a polygon.
#[derive(Debug, Clone, Copy, PartialEq, Eq, Structural)]
pub enum PolygonError {
    /// A polygon needs at least three vertices; this many were received.
    TooFewVertices(usize),
}

/// A closed polygon through its vertices in order.
#[derive(Debug, Clone, PartialEq, Eq)]
pub struct Polygon {
    pub vertices: Vec<Point>,
}

impl View for Polygon {
    type V = Seq<Vec2>;

    open spec fn view(&self) -> Seq<Vec2> {
        self.vertices@.map_values(|v: Point| v@)
    }
}

proof fn lemma_winding_bound(p: Vec2, vs: Seq<Vec2>, k: int)
    requires
        k >= 0,
    ensures
        -k <= winding_upto(p, vs, k) <= k,
    decreases k,
{
    if k > 0 {
        lemma_winding_bound(p, vs, k - 1);
    }
}

impl Polygon {
    /// The polygon without vertices.
    pub fn new() -> (r: Polygon)
        ensures
            r@.len() == 0,
    {
        Polygon { vertices: Vec::new() }
    }

    /// A polygon of at least three vertices; fewer are refused with their
    /// count.
    pub fn try_new(vertices: Vec<Point>) -> (r: Result<Polygon, PolygonError>)
        ensures
            vertices@.len() >= 3 ==> (r matches Ok(poly) && poly.vertices@ == vertices@),
            vertices@.len() < 3 ==> r == Err::<Polygon, PolygonError>(
                PolygonError::TooFewVertices(vertices@.len() as usize),
            ),
    {
        let n = vertices.len();
        if n < 3 {
            return Err(PolygonError::TooFewVertices(n));
        }
        Ok(Polygon { vertices })
    }

    /// A polygon through any number of vertices; below two there is no edge.
    pub fn from_vertices(vertices: Vec<Point>) -> (r: Polygon)
        ensures
            r.vertices@ == vertices@,
    {
        Polygon { vertices }
    }

    /// The number of edges: one per vertex, none below two vertices.
    pub fn num_edges(&self) -> (r: usize)
        ensures
            r == num_edges(self@.len() as int),
    {
        if self.vertices.len() < 2 {
            0
        } else {
            self.vertices.len()
        }
    }

    /// The `i`-th edge.
    pub fn edge(&self, i: usize) -> (r: Segment)
        requires
            i < self@.len(),
        ensures
            (r.start@, r.end@) == edge(self@, i as int),
    {
        let n = self.vertices.len();
        if i < n - 1 {
            Segment::new(self.vertices[i], self.vertices[i + 1])
        } else {
            Segment::new(self.vertices[i], self.vertices[0])
        }
    }

    /// The winding number of `point`: nonzero exactly for interior points.
    pub fn winding_number(&self, point: Point) -> (r: i128)
        requires
            all_within_limit(self@),
            within_limit(point@),
        ensures
            r == winding(point@, self@),
    {
        let n = self.num_edges();
        let mut total: i128 = 0;
        let mut i: usize = 0;
        while i < n
            invariant
                n == num_edges(self@.len() as int),
                0 <= i <= n,
                all_within_limit(self@),
                within_limit(point@),
                total == winding_upto(point@, self@, i as int),
            decreases n - i,
        {
            let s = self.edge(i);
            proof {
                assert(within_limit(self@[i as int]));
                assert(within_limit(self@[0]));
                lemma_winding_bound(point@, self@, i as int);
            }
            let c = s.horizontal_ray_intersection_type(point);
            total = total + c as i128;
            i += 1;
        }
        total
    }

    /// The squared distance from `point` to the nearest edge; `None`,
    /// standing for `+∞`, without edges.
    pub fn unsigned_distance_sq(&self, point: Point) -> (r: Option<SquaredDistance>)
        requires
            all_within_limit(self@),
            within_limit(point@),
        ensures
            opt_view(r) == polygon_dist_sq(point@, self@),
            r matches Some(d) ==> ratio_bounded(d@),
    {
        let n = self.num_edges();
        let mut best: Option<SquaredDistance> = None;
        let mut i: usize = 0;
        while i < n
            invariant
                n == num_edges(self@.len() as int),
                0 <= i <= n,
                all_within_limit(self@),
                within_limit(point@),
                opt_view(best) == edge_dist_upto(point@, self@, i as int),
                best matches Some(d) ==> ratio_bounded(d@),
            decreases n - i,
        {
            let s = self.edge(i);
            proof {
                assert(within_limit(self@[i as int]));
                assert(within_limit(self@[0]));
            }
            let d = s.distance_sq_to_point(point);
            best = min_opt(best, Some(d));
            i += 1;
        }
        best
    }

    /// The signed distance: the distance to the nearest edge, negative where
    /// the winding number is nonzero.
    pub fn signed_distance(&self, point: Point) -> (r: SignedSquaredDistance)
        requires
            all_within_limit(self@),
            within_limit(point@),
        ensures
            r.negative == (winding(point@, self@) != 0),
            opt_view(r.magnitude_sq) == polygon_dist_sq(point@, self@),
    {
        let w = self.winding_number(point);
        let d = self.unsigned_distance_sq(point);
        SignedSquaredDistance { negative: w != 0, magnitude_sq: d }
    }
}

/// Walking an edge backwards negates its crossing contribution.
pub proof fn lemma_crossing_reverse(p: Vec2, a: Vec2, b: Vec2)
    ensures
        crossing(p, b, a) == -crossing(p, a, b),
{
    let dy = b.1 - a.1;
    let h = p.1 - a.1;
    let dx = b.0 - a.0;
    let g = p.0 - a.0;
    assert((h - dy) * (-dx) - (g - dx) * (-dy) == -(h * dx - g * dy)) by (nonlinear_arith);
}

proof fn lemma_winding_reverse_upto(p: Vec2, vs: Seq<Vec2>, k: int)
    requires
        vs.len() >= 2,
        0 <= k <= vs.len() - 1,
    ensures
        winding_upto(p, vs.reverse(), k) == -(winding_upto(p, vs, vs.len() - 1) - winding_upto(
            p,
            vs,
            vs.len() - 1 - k,
        )),
    decreases k,
{
    if k > 0 {
        let n = vs.len() as int;
        let rs = vs.reverse();
        lemma_winding_reverse_upto(p, vs, k - 1);
        let j = n - 1 - k;
        assert(edge(rs, k - 1) == (vs[j + 1], vs[j]));
        assert(edge(vs, j) == (vs[j], vs[j + 1]));
        lemma_crossing_reverse(p, vs[j], vs[j + 1]);
    }
}

/// Reversing the order of a polygon's vertices negates the winding number of
/// every point, so the classification inside or outside is unchanged.
pub proof fn lemma_winding_reverse(p: Point, poly: Polygon)
    ensures
        winding(p@, poly@.reverse()) == -winding(p@, poly@),
{
    let vs = poly@;
    let n = vs.len() as int;
    if n >= 2 {
        let rs = vs.reverse();
        lemma_winding_reverse_upto(p@, vs, n - 1);
        assert(edge(rs, n - 1) == (vs[0], vs[n - 1]));
        assert(edge(vs, n - 1) == (vs[n - 1], vs[0]));
        lemma_crossing_reverse(p@, vs[n - 1], vs[0]);
    }
}

/// The distance to a segment does not depend on its direction.
pub proof fn lemma_seg_dist_symmetric(p: Vec2, a: Vec2, b: Vec2)
    ensures
        seg_dist_sq(p, b, a) == seg_dist_sq(p, a, b),
{
    let d = vsub(b, a);
    let w = vsub(p, a);
    let (d0, d1, w0, w1) = (d.0, d.1, w.0, w.1);
    let t = vdot(w, d);
    let len = vnorm_sq(d);
    let t2 = vdot(vsub(p, b), vsub(a, b));
    assert(t2 == len - t) by (nonlinear_arith)
        requires
            t2 == (w0 - d0) * (-d0) + (w1 - d1) * (-d1),
            t == w0 * d0 + w1 * d1,
            len == d0 * d0 + d1 * d1,
    ;
    assert(vnorm_sq(vsub(a, b)) == len) by (nonlinear_arith)
        requires
            vnorm_sq(vsub(a, b)) == (-d0) * (-d0) + (-d1) * (-d1),
            len == d0 * d0 + d1 * d1,
    ;
    let c = vcross(d, w);
    let c2 = vcross(vsub(a, b), vsub(p, b));
    assert(c2 == -c) by (nonlinear_arith)
        requires
            c2 == (-d0) * (w1 - d1) - (-d1) * (w0 - d0),
            c == d0 * w1 - d1 * w0,
    ;
    assert(c2 * c2 == c * c) by (nonlinear_arith)
        requires
            c2 == -c,
    ;
    if t <= 0 && t >= len {
        crate::vector::lemma_norm_sq_zero(d);
        assert(a == b);
    }
}

proof fn lemma_ratio_le_trans(a: (int, int), b: (int, int), c: (int, int))
    requires
        ratio_le(a, b),
        ratio_le(b, c),
        a.1 > 0,
        b.1 > 0,
        c.1 > 0,
    ensures
        ratio_le(a, c),
{
    assert(a.0 * b.1 * c.1 <= b.0 * a.1 * c.1) by (nonlinear_arith)
        requires
            a.0 * b.1 <= b.0 * a.1,
            c.1 > 0,
    ;
    assert(b.0 * c.1 * a.1 <= c.0 * b.1 * a.1) by (nonlinear_arith)
        requires
            b.0 * c.1 <= c.0 * b.1,
            a.1 > 0,
    ;
    assert(a.0 * c.1 <= c.0 * a.1) by (nonlinear_arith)
        requires
            a.0 * b.1 * c.1 <= b.0 * a.1 * c.1,
            b.0 * c.1 * a.1 <= c.0 * b.1 * a.1,
            b.1 > 0,
    ;
}

pub open spec fn edge_dist(p: Vec2, vs: Seq<Vec2>, i: int) -> (int, int) {
    seg_dist_sq(p, edge(vs, i).0, edge(vs, i).1)
}

/// The running minimum over the first `k` edges is one of their distances
/// and no larger than any of them.
proof fn lemma_edge_dist_upto_min(p: Vec2, vs: Seq<Vec2>, k: int)
    requires
        1 <= k,
    ensures
        edge_dist_upto(p, vs, k) is Some,
        edge_dist_upto(p, vs, k)->Some_0.1 > 0,
        exists|i: int| 0 <= i < k && edge_dist_upto(p, vs, k)->Some_0 == #[trigger] edge_dist(p, vs, i),
        forall|i: int| 0 <= i < k ==> ratio_le(edge_dist_upto(p, vs, k)->Some_0, #[trigger] edge_dist(p, vs, i)),
    decreases k,
{
    let d = edge_dist(p, vs, k - 1);
    lemma_seg_dist_sign(p, edge(vs, k - 1).0, edge(vs, k - 1).1);
    if k == 1 {
        assert(edge_dist_upto(p, vs, 0) is None);
        assert(edge_dist_upto(p, vs, 1)->Some_0 == edge_dist(p, vs, 0));
    } else {
        lemma_edge_dist_upto_min(p, vs, k - 1);
        let m = edge_dist_upto(p, vs, k - 1)->Some_0;
        let r = edge_dist_upto(p, vs, k)->Some_0;
        let j = choose|i: int| 0 <= i < k - 1 && m == #[trigger] edge_dist(p, vs, i);
        assert forall|i: int| 0 <= i < k implies ratio_le(r, #[trigger] edge_dist(p, vs, i)) by {
            lemma_seg_dist_sign(p, edge(vs, i).0, edge(vs, i).1);
            if !ratio_le(m, d) && i < k - 1 {
                lemma_ratio_le_trans(d, m, edge_dist(p, vs, i));
            }
        }
        if ratio_le(m, d) {
            assert(0 <= j < k && r == edge_dist(p, vs, j));
        } else {
            assert(0 <= k - 1 < k && r == edge_dist(p, vs, k - 1));
        }
    }
}

/// Reversing the order of a polygon's vertices leaves the distance to its
/// nearest edge unchanged, as a rational number.
pub proof fn lemma_distance_reverse(p: Point, poly: Polygon)
    ensures
        polygon_dist_sq(p@, poly@.reverse()) is None <==> polygon_dist_sq(p@, poly@) is None,
        polygon_dist_sq(p@, poly@) matches Some(x) ==> polygon_dist_sq(p@, poly@.reverse())
            matches Some(y) && x.0 * y.1 == y.0 * x.1,
{
    let vs = poly@;
    let rs = vs.reverse();
    let n = vs.len() as int;
    if n >= 2 {
        let q = p@;
        lemma_edge_dist_upto_min(q, vs, n);
        lemma_edge_dist_upto_min(q, rs, n);
        let x = polygon_dist_sq(q, vs)->Some_0;
        let y = polygon_dist_sq(q, rs)->Some_0;
        assert forall|i: int| 0 <= i < n implies #[trigger] edge_dist(q, rs, i) == edge_dist(
            q,
            vs,
            if i < n - 1 {
                n - 2 - i
            } else {
                n - 1
            },
        ) by {
            if i < n - 1 {
                assert(edge(rs, i) == (vs[n - 1 - i], vs[n - 2 - i]));
                lemma_seg_dist_symmetric(q, vs[n - 2 - i], vs[n - 1 - i]);
            } else {
                assert(edge(rs, i) == (vs[0], vs[n - 1]));
                lemma_seg_dist_symmetric(q, vs[n - 1], vs[0]);
            }
        }
        let i = choose|i: int| 0 <= i < n && y == #[trigger] edge_dist(q, rs, i);
        let si = if i < n - 1 {
            n - 2 - i
        } else {
            n - 1
        };
        assert(ratio_le(x, edge_dist(q, vs, si)));
        let j = choose|j: int| 0 <= j < n && x == #[trigger] edge_dist(q, vs, j);
        let sj = if j < n - 1 {
            n - 2 - j
        } else {
            n - 1
        };
        assert(edge_dist(q, rs, sj) == edge_dist(q, vs, j));
        assert(ratio_le(y, edge_dist(q, rs, sj)));
    }
}

/// Reversing the order of a polygon's vertices negates its winding number
/// and keeps the distance to its nearest edge, so every point keeps its side:
/// the signed distance of the reversed polygon is the same, in sign and in
/// magnitude.
pub proof fn lemma_side_reverse(p: Point, poly: Polygon)
    ensures
        winding(p@, poly@.reverse()) == -winding(p@, poly@),
        crate::boundary::polygon_side(p@, poly@.reverse()) == crate::boundary::polygon_side(
            p@,
            poly@,
        ),
{
    lemma_winding_reverse(p, poly);
    lemma_distance_reverse(p, poly);
    let vs = poly@;
    let n = vs.len() as int;
    if n >= 2 {
        lemma_edge_dist_upto_min(p@, vs, n);
        lemma_edge_dist_upto_min(p@, vs.reverse(), n);
        let x = polygon_dist_sq(p@, vs)->Some_0;
        let y = polygon_dist_sq(p@, vs.reverse())->Some_0;
        assert(x.0 == 0 <==> y.0 == 0) by (nonlinear_arith)
            requires
                x.0 * y.1 == y.0 * x.1,
                x.1 > 0,
                y.1 > 0,
        ;
    }
}

} // verus!
