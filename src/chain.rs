//! Open polylines.
use vstd::prelude::*;
use crate::vector::Vec2;
use crate::shape::{
    point_within_limit, Point, Segment, SquaredDistance, within_limit, seg_dist_sq, opt_min, opt_view, min_opt,
    ratio_bounded,
};
use crate::transform::{Similarity, sim_map, sim_apply_fits};

verus! {

/// All coordinates of the sequence are within the limit.
pub open spec fn all_within_limit(vs: Seq<Vec2>) -> bool {
    forall|i: int| 0 <= i < vs.len() ==> within_limit(#[trigger] vs[i])
}

/// Whether every point of `points` is within the limit.
pub fn all_points_within_limit(points: &Vec<Point>) -> (r: bool)
    ensures
        r == all_within_limit(points@.map_values(|v: Point| v@)),
{
    let ghost vs = points@.map_values(|v: Point| v@);
    let mut i: usize = 0;
    while i < points.len()
        invariant
            0 <= i <= points@.len(),
            vs == points@.map_values(|v: Point| v@),
            forall|j: int| 0 <= j < i ==> within_limit(#[trigger] vs[j]),
        decreases points@.len() - i,
    {
        if !point_within_limit(points[i]) {
            assert(!within_limit(vs[i as int]));
            return false;
        }
        i += 1;
    }
    true
}

/// The number of pieces that distances are measured against: one segment
/// per consecutive pair, and a single vertex counts as a piece of its own.
pub open spec fn num_pieces(n: int) -> int {
    if n <= 1 {
        n
    } else {
        n - 1
    }
}

/// The `i`-th piece: the segment to the next vertex, or the last vertex
/// alone.
pub open spec fn piece(vs: Seq<Vec2>, i: int) -> (Vec2, Vec2) {
    (vs[i], if i + 1 < vs.len() {
        vs[i + 1]
    } else {
        vs[i]
    })
}

/// The smallest squared distance from `p` to the first `k` pieces.
pub open spec fn point_chain_upto(p: Vec2, vs: Seq<Vec2>, k: int) -> Option<(int, int)>
    decreases k,
{
    if k <= 0 {
        None
    } else {
        opt_min(
            point_chain_upto(p, vs, k - 1),
            Some(seg_dist_sq(p, piece(vs, k - 1).0, piece(vs, k - 1).1)),
        )
    }
}

/// The squared distance from `p` to the chain; `None` for an empty chain,
/// whose distance is `+∞`.
pub open spec fn point_chain_dist_sq(p: Vec2, vs: Seq<Vec2>) -> Option<(int, int)> {
    point_chain_upto(p, vs, num_pieces(vs.len() as int))
}

/// An open polyline through its vertices in order.
#[derive(Debug, Clone, PartialEq, Eq)]
pub struct Chain {
    pub vertices: Vec<Point>,
}

impl View for Chain {
    type V = Seq<Vec2>;

    open spec fn view(&self) -> Seq<Vec2> {
        self.vertices@.map_values(|v: Point| v@)
    }
}

impl Chain {
    pub fn new(vertices: Vec<Point>) -> (r: Chain)
        ensures
            r.vertices@ == vertices@,
    {
        Chain { vertices }
    }

    pub fn vertices(&self) -> (r: &Vec<Point>)
        ensures
            r@ == self.vertices@,
    {
        &self.vertices
    }

    pub fn num_vertices(&self) -> (r: usize)
        ensures
            r == self.vertices@.len(),
    {
        self.vertices.len()
    }

    /// The number of consecutive vertex pairs.
    pub fn num_segments(&self) -> (r: usize)
        ensures
            r == if self.vertices@.len() == 0 {
                0
            } else {
                self.vertices@.len() - 1
            },
    {
        if self.vertices.len() == 0 {
            0
        } else {
            self.vertices.len() - 1
        }
    }

    /// The segment from vertex `i` to vertex `i + 1`.
    pub fn segment(&self, i: usize) -> (r: Segment)
        requires
            i + 1 < self.vertices@.len(),
        ensures
            r.start == self.vertices@[i as int],
            r.end == self.vertices@[i + 1],
    {
        let n = self.vertices.len();
        Segment::new(self.vertices[i], self.vertices[i + 1])
    }

    /// The `i`-th piece as a segment; the last vertex alone is a segment of
    /// length zero.
    pub fn piece(&self, i: usize) -> (r: Segment)
        requires
            i < self.vertices@.len(),
        ensures
            (r.start@, r.end@) == piece(self@, i as int),
    {
        let n = self.vertices.len();
        if i < n - 1 {
            Segment::new(self.vertices[i], self.vertices[i + 1])
        } else {
            Segment::new(self.vertices[i], self.vertices[i])
        }
    }

    /// The number of pieces that distances are measured against.
    pub fn num_pieces(&self) -> (r: usize)
        ensures
            r == num_pieces(self@.len() as int),
    {
        if self.vertices.len() <= 1 {
            self.vertices.len()
        } else {
            self.vertices.len() - 1
        }
    }

    /// The exact squared distance from `point` to the nearest point of the
    /// chain; `None`, standing for `+∞`, when the chain has no vertex.
    pub fn distance_sq_to_point(&self, point: Point) -> (r: Option<SquaredDistance>)
        requires
            all_within_limit(self@),
            within_limit(point@),
        ensures
            opt_view(r) == point_chain_dist_sq(point@, self@),
            r matches Some(d) ==> ratio_bounded(d@),
    {
        let n = self.num_pieces();
        let mut best: Option<SquaredDistance> = None;
        let mut i: usize = 0;
        while i < n
            invariant
                n == num_pieces(self@.len() as int),
                0 <= i <= n,
                all_within_limit(self@),
                within_limit(point@),
                opt_view(best) == point_chain_upto(point@, self@, i as int),
                best matches Some(d) ==> ratio_bounded(d@),
            decreases n - i,
        {
            let s = self.piece(i);
            proof {
                assert(within_limit(self@[i as int]));
                assert(within_limit(s.start@));
                assert(within_limit(s.end@));
            }
            let d = s.distance_sq_to_point(point);
            best = min_opt(best, Some(d));
            i += 1;
        }
        best
    }

    /// Moves every vertex by the similarity `t`.
    pub fn transform(&mut self, t: &Similarity)
        requires
            forall|i: int| 0 <= i < old(self)@.len() ==> sim_apply_fits(t@, #[trigger] old(self)@[i]),
        ensures
            final(self)@.len() == old(self)@.len(),
            forall|i: int|
                0 <= i < old(self)@.len() ==> #[trigger] final(self)@[i] == sim_map(t@, old(self)@[i]),
    {
        let n = self.vertices.len();
        let mut i: usize = 0;
        while i < n
            invariant
                n == old(self)@.len(),
                self@.len() == n,
                0 <= i <= n,
                forall|j: int| 0 <= j < n ==> sim_apply_fits(t@, #[trigger] old(self)@[j]),
                forall|j: int|
                    0 <= j < i ==> #[trigger] self.vertices@[j]@ == sim_map(
                        t@,
                        old(self).vertices@[j]@,
                    ),
                forall|j: int| i <= j < n ==> #[trigger] self.vertices@[j] == old(self).vertices@[j],
            decreases n - i,
        {
            let mut v = self.vertices[i];
            proof {
                assert(v@ == old(self)@[i as int]);
            }
            v.transform(t);
            self.vertices.set(i, v);
            i += 1;
        }
        proof {
            assert forall|j: int| 0 <= j < old(self)@.len() implies #[trigger] self@[j] == sim_map(
                t@,
                old(self)@[j],
            ) by {
                assert(self@[j] == self.vertices@[j]@);
                assert(old(self)@[j] == old(self).vertices@[j]@);
            }
        }
    }
}

} // verus!
