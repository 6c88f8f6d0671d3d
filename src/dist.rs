//! Distances between points, segments and chains.
use vstd::prelude::*;
use crate::vector::{Vec2, vsub, vdot, vcross, vnorm_sq, vscale, lemma_norm_sq_zero};
use crate::shape::{
    Shape, shape_within_limit, Point, Segment, SquaredDistance, within_limit, seg_dist_sq, on_segment, ratio_min, opt_min,
    opt_view, min_opt, ratio_bounded,
};
use crate::chain::{
    Chain, all_within_limit, num_pieces, piece, point_chain_upto, point_chain_dist_sq,
};

verus! {

/// The approximate squared distance between two segments: the smallest of
/// the four distances from an end point of one to the other segment. Two
/// segments that cross without sharing an end point are not seen to touch.
pub open spec fn seg_seg_dist_sq(a1: Vec2, b1: Vec2, a2: Vec2, b2: Vec2) -> (int, int) {
    ratio_min(
        ratio_min(ratio_min(seg_dist_sq(a2, a1, b1), seg_dist_sq(b2, a1, b1)), seg_dist_sq(a1, a2, b2)),
        seg_dist_sq(b1, a2, b2),
    )
}

/// The smallest squared distance from the segment `a`–`b` to the first `k`
/// pieces of a chain.
pub open spec fn seg_chain_upto(a: Vec2, b: Vec2, vs: Seq<Vec2>, k: int) -> Option<(int, int)>
    decreases k,
{
    if k <= 0 {
        None
    } else {
        opt_min(
            seg_chain_upto(a, b, vs, k - 1),
            Some(seg_seg_dist_sq(a, b, piece(vs, k - 1).0, piece(vs, k - 1).1)),
        )
    }
}

pub open spec fn seg_chain_dist_sq(a: Vec2, b: Vec2, vs: Seq<Vec2>) -> Option<(int, int)> {
    seg_chain_upto(a, b, vs, num_pieces(vs.len() as int))
}

/// The smallest squared distance from the first `k` pieces of `us` to `vs`.
pub open spec fn chain_chain_upto(us: Seq<Vec2>, vs: Seq<Vec2>, k: int) -> Option<(int, int)>
    decreases k,
{
    if k <= 0 {
        None
    } else {
        opt_min(
            chain_chain_upto(us, vs, k - 1),
            seg_chain_dist_sq(piece(us, k - 1).0, piece(us, k - 1).1, vs),
        )
    }
}

pub open spec fn chain_chain_dist_sq(us: Seq<Vec2>, vs: Seq<Vec2>) -> Option<(int, int)> {
    chain_chain_upto(us, vs, num_pieces(us.len() as int))
}

/// The squared distance between two points.
pub fn point_to_point(a: Point, b: Point) -> (r: SquaredDistance)
    requires
        within_limit(a@),
        within_limit(b@),
    ensures
        r@ == (vnorm_sq(vsub(b@, a@)), 1int),
{
    a.distance_sq(b)
}

/// The squared distance from `p` to the nearest point of `segment`.
pub fn point_to_segment(p: Point, segment: &Segment) -> (r: SquaredDistance)
    requires
        within_limit(p@),
        within_limit(segment.start@),
        within_limit(segment.end@),
    ensures
        r@ == seg_dist_sq(p@, segment.start@, segment.end@),
{
    segment.distance_sq_to_point(p)
}

/// The approximate squared distance between two segments, see
/// `seg_seg_dist_sq`.
pub fn segment_to_segment(s1: &Segment, s2: &Segment) -> (r: SquaredDistance)
    requires
        within_limit(s1.start@),
        within_limit(s1.end@),
        within_limit(s2.start@),
        within_limit(s2.end@),
    ensures
        r@ == seg_seg_dist_sq(s1.start@, s1.end@, s2.start@, s2.end@),
        ratio_bounded(r@),
{
    let d1 = s1.distance_sq_to_point(s2.start);
    let d2 = s1.distance_sq_to_point(s2.end);
    let d3 = s2.distance_sq_to_point(s1.start);
    let d4 = s2.distance_sq_to_point(s1.end);
    let m12 = d1.min(d2);
    let m123 = m12.min(d3);
    m123.min(d4)
}

/// The squared distance from `p` to `chain`; `None`, standing for `+∞`, for
/// an empty chain.
pub fn point_to_chain(p: Point, chain: &Chain) -> (r: Option<SquaredDistance>)
    requires
        within_limit(p@),
        all_within_limit(chain@),
    ensures
        opt_view(r) == point_chain_dist_sq(p@, chain@),
{
    chain.distance_sq_to_point(p)
}

/// The smallest approximate squared distance from `s` to a piece of `c`;
/// `None`, standing for `+∞`, for an empty chain.
pub fn segment_to_chain(s: &Segment, c: &Chain) -> (r: Option<SquaredDistance>)
    requires
        within_limit(s.start@),
        within_limit(s.end@),
        all_within_limit(c@),
    ensures
        opt_view(r) == seg_chain_dist_sq(s.start@, s.end@, c@),
        r matches Some(d) ==> ratio_bounded(d@),
{
    let n = c.num_pieces();
    let mut best: Option<SquaredDistance> = None;
    let mut i: usize = 0;
    while i < n
        invariant
            n == num_pieces(c@.len() as int),
            0 <= i <= n,
            within_limit(s.start@),
            within_limit(s.end@),
            all_within_limit(c@),
            opt_view(best) == seg_chain_upto(s.start@, s.end@, c@, i as int),
            best matches Some(d) ==> ratio_bounded(d@),
        decreases n - i,
    {
        let cs = c.piece(i);
        proof {
            assert(within_limit(c@[i as int]));
        }
        let d = segment_to_segment(s, &cs);
        best = min_opt(best, Some(d));
        i += 1;
    }
    best
}

/// The smallest approximate squared distance between a piece of `c1` and a
/// piece of `c2`; `None`, standing for `+∞`, if either chain is empty.
pub fn chain_to_chain(c1: &Chain, c2: &Chain) -> (r: Option<SquaredDistance>)
    requires
        all_within_limit(c1@),
        all_within_limit(c2@),
    ensures
        opt_view(r) == chain_chain_dist_sq(c1@, c2@),
{
    let n = c1.num_pieces();
    let mut best: Option<SquaredDistance> = None;
    let mut i: usize = 0;
    while i < n
        invariant
            n == num_pieces(c1@.len() as int),
            0 <= i <= n,
            all_within_limit(c1@),
            all_within_limit(c2@),
            opt_view(best) == chain_chain_upto(c1@, c2@, i as int),
            best matches Some(d) ==> ratio_bounded(d@),
        decreases n - i,
    {
        let s = c1.piece(i);
        proof {
            assert(within_limit(c1@[i as int]));
        }
        let d = segment_to_chain(&s, c2);
        best = min_opt(best, d);
        i += 1;
    }
    best
}

/// The squared distance between two shapes; for two segments it is the
/// approximation of `seg_seg_dist_sq`.
pub open spec fn shape_dist_sq(a: Shape, b: Shape) -> (int, int) {
    match (a, b) {
        (Shape::Point(p), Shape::Point(q)) => (vnorm_sq(vsub(q@, p@)), 1),
        (Shape::Segment(s1), Shape::Segment(s2)) => seg_seg_dist_sq(
            s1.start@,
            s1.end@,
            s2.start@,
            s2.end@,
        ),
        (Shape::Point(p), Shape::Segment(s)) => seg_dist_sq(p@, s.start@, s.end@),
        (Shape::Segment(s), Shape::Point(p)) => seg_dist_sq(p@, s.start@, s.end@),
    }
}

impl Shape {
    /// The squared distance between the two shapes.
    pub fn distance_sq(&self, other: &Shape) -> (r: SquaredDistance)
        requires
            shape_within_limit(*self),
            shape_within_limit(*other),
        ensures
            r@ == shape_dist_sq(*self, *other),
    {
        match (self, other) {
            (Shape::Point(a), Shape::Point(b)) => point_to_point(*a, *b),
            (Shape::Segment(s1), Shape::Segment(s2)) => segment_to_segment(s1, s2),
            (Shape::Point(p), Shape::Segment(s)) => point_to_segment(*p, s),
            (Shape::Segment(s), Shape::Point(p)) => point_to_segment(*p, s),
        }
    }
}

/// The distance is exactly zero; `None` stands for `+∞`.
pub open spec fn is_zero_dist(d: Option<(int, int)>) -> bool {
    match d {
        Some(x) => x.0 == 0,
        None => false,
    }
}

/// `p` lies on one of the pieces of the chain.
pub open spec fn on_chain(p: Vec2, vs: Seq<Vec2>) -> bool {
    exists|i: int|
        0 <= i < num_pieces(vs.len() as int) && #[trigger] on_segment(
            p,
            piece(vs, i).0,
            piece(vs, i).1,
        )
}

/// The squared distance to a segment has a non-negative numerator and a
/// positive denominator.
pub proof fn lemma_seg_dist_sign(p: Vec2, a: Vec2, b: Vec2)
    ensures
        seg_dist_sq(p, a, b).0 >= 0,
        seg_dist_sq(p, a, b).1 > 0,
{
    lemma_norm_sq_zero(vsub(p, a));
    lemma_norm_sq_zero(vsub(p, b));
    lemma_norm_sq_zero(vsub(b, a));
    let c = vcross(vsub(b, a), vsub(p, a));
    assert(c * c >= 0) by (nonlinear_arith);
}

/// The squared distance from `p` to a segment is zero exactly where `p`
/// lies on it.
pub proof fn lemma_seg_dist_zero(p: Vec2, a: Vec2, b: Vec2)
    ensures
        seg_dist_sq(p, a, b).0 == 0 <==> on_segment(p, a, b),
{
    let d = vsub(b, a);
    let w = vsub(p, a);
    let t = vdot(w, d);
    let len = vnorm_sq(d);
    let c = vcross(d, w);
    let (d0, d1, w0, w1) = (d.0, d.1, w.0, w.1);
    lemma_norm_sq_zero(d);
    lemma_norm_sq_zero(w);
    lemma_norm_sq_zero(vsub(p, b));
    if on_segment(p, a, b) {
        let (k, m) = choose|k: int, m: int|
            0 <= k <= m && m > 0 && #[trigger] vscale(vsub(p, a), m) == #[trigger] vscale(
                vsub(b, a),
                k,
            );
        assert(w0 * m == d0 * k && w1 * m == d1 * k);
        assert(m * t == (w0 * m) * d0 + (w1 * m) * d1) by (nonlinear_arith)
            requires
                t == w0 * d0 + w1 * d1,
        ;
        assert((d0 * k) * d0 + (d1 * k) * d1 == k * len) by (nonlinear_arith)
            requires
                len == d0 * d0 + d1 * d1,
        ;
        assert(m * t == k * len);
        assert(m * c == 0) by (nonlinear_arith)
            requires
                w0 * m == d0 * k,
                w1 * m == d1 * k,
                c == d0 * w1 - d1 * w0,
        ;
        assert(c == 0) by (nonlinear_arith)
            requires
                m * c == 0,
                m > 0,
        ;
        assert(k * len >= 0 && k * len <= m * len) by (nonlinear_arith)
            requires
                0 <= k <= m,
                len >= 0,
        ;
        if t <= 0 {
            assert(t == 0) by (nonlinear_arith)
                requires
                    m * t == k * len,
                    k * len >= 0,
                    m > 0,
                    t <= 0,
            ;
            assert(k == 0 || len == 0) by (nonlinear_arith)
                requires
                    k * len == 0,
            ;
            if len == 0 {
                assert(d0 == 0 && d1 == 0);
            }
            assert(w0 * m == 0 && w1 * m == 0) by (nonlinear_arith)
                requires
                    w0 * m == d0 * k,
                    w1 * m == d1 * k,
                    k == 0 || (d0 == 0 && d1 == 0),
            ;
            assert(w0 == 0 && w1 == 0) by (nonlinear_arith)
                requires
                    w0 * m == 0,
                    w1 * m == 0,
                    m > 0,
            ;
        } else if t >= len {
            assert(t <= len) by (nonlinear_arith)
                requires
                    m * t == k * len,
                    k * len <= m * len,
                    m > 0,
            ;
            assert(k == m) by (nonlinear_arith)
                requires
                    m * t == k * len,
                    t == len,
                    len > 0,
            ;
            assert(w0 == d0 && w1 == d1) by (nonlinear_arith)
                requires
                    w0 * m == d0 * k,
                    w1 * m == d1 * k,
                    k == m,
                    m > 0,
            ;
            assert(vsub(p, b) == (0int, 0int));
        } else {
            assert(c * c == 0);
        }
    }
    if seg_dist_sq(p, a, b).0 == 0 {
        if t <= 0 {
            assert(w == (0int, 0int));
            assert(d0 * 0 == 0 && d1 * 0 == 0) by (nonlinear_arith);
            assert(vscale(vsub(p, a), 1) == vscale(vsub(b, a), 0));
        } else if t >= len {
            assert(vsub(p, b) == (0int, 0int));
            assert(vscale(vsub(p, a), 1) == vscale(vsub(b, a), 1));
        } else {
            assert(c == 0) by (nonlinear_arith)
                requires
                    c * c == 0,
            ;
            assert(w0 * len == d0 * t && w1 * len == d1 * t) by (nonlinear_arith)
                requires
                    c == d0 * w1 - d1 * w0,
                    c == 0,
                    t == w0 * d0 + w1 * d1,
                    len == d0 * d0 + d1 * d1,
            ;
            assert(vscale(vsub(p, a), len) == vscale(vsub(b, a), t));
        }
    }
}

/// The running minimum over the first `k` pieces is zero exactly where the
/// distance to one of those pieces is.
proof fn lemma_point_chain_upto_zero(p: Vec2, vs: Seq<Vec2>, k: int)
    requires
        0 <= k <= num_pieces(vs.len() as int),
    ensures
        is_zero_dist(point_chain_upto(p, vs, k)) <==> exists|i: int|
            0 <= i < k && (#[trigger] seg_dist_sq(p, piece(vs, i).0, piece(vs, i).1)).0 == 0,
        point_chain_upto(p, vs, k) matches Some(x) ==> x.0 >= 0 && x.1 > 0,
    decreases k,
{
    if k > 0 {
        lemma_point_chain_upto_zero(p, vs, k - 1);
        let d = seg_dist_sq(p, piece(vs, k - 1).0, piece(vs, k - 1).1);
        lemma_seg_dist_sign(p, piece(vs, k - 1).0, piece(vs, k - 1).1);
        let prev = point_chain_upto(p, vs, k - 1);
        if let Some(m) = prev {
            assert(m.0 * d.1 >= 0 && d.0 * m.1 >= 0) by (nonlinear_arith)
                requires
                    m.0 >= 0,
                    m.1 > 0,
                    d.0 >= 0,
                    d.1 > 0,
            ;
            if m.0 > 0 {
                assert(m.0 * d.1 > 0) by (nonlinear_arith)
                    requires
                        m.0 > 0,
                        d.1 > 0,
                ;
            }
            if d.0 > 0 {
                assert(d.0 * m.1 > 0) by (nonlinear_arith)
                    requires
                        d.0 > 0,
                        m.1 > 0,
                ;
            }
        }
        if exists|i: int| 0 <= i < k && (#[trigger] seg_dist_sq(p, piece(vs, i).0, piece(vs, i).1)).0
            == 0 {
            let i = choose|i: int|
                0 <= i < k && (#[trigger] seg_dist_sq(p, piece(vs, i).0, piece(vs, i).1)).0 == 0;
            if i < k - 1 {
                assert(is_zero_dist(prev));
                let m = prev->Some_0;
                assert(m.0 * d.1 == 0) by (nonlinear_arith)
                    requires
                        m.0 == 0,
                ;
            } else {
                assert(d.0 == 0);
                if let Some(m) = prev {
                    assert(d.0 * m.1 == 0) by (nonlinear_arith)
                        requires
                            d.0 == 0,
                    ;
                }
            }
        }
        if is_zero_dist(point_chain_upto(p, vs, k)) {
            if is_zero_dist(prev) {
                let i = choose|i: int|
                    0 <= i < k - 1 && (#[trigger] seg_dist_sq(p, piece(vs, i).0, piece(vs, i).1)).0
                        == 0;
                assert(0 <= i < k);
            } else {
                assert(d.0 == 0);
                assert(0 <= k - 1 < k);
            }
        }
    }
}

/// The distance from a point to a chain is zero exactly where the point
/// lies on one of the chain's segments (on its only vertex, for a chain of
/// one vertex).
pub proof fn lemma_point_to_chain_zero(p: Point, c: Chain)
    ensures
        is_zero_dist(point_chain_dist_sq(p@, c@)) <==> on_chain(p@, c@),
{
    let vs = c@;
    let n = num_pieces(vs.len() as int);
    lemma_point_chain_upto_zero(p@, vs, n);
    if on_chain(p@, vs) {
        let i = choose|i: int|
            0 <= i < n && #[trigger] on_segment(p@, piece(vs, i).0, piece(vs, i).1);
        lemma_seg_dist_zero(p@, piece(vs, i).0, piece(vs, i).1);
    }
    if is_zero_dist(point_chain_dist_sq(p@, vs)) {
        let i = choose|i: int|
            0 <= i < n && (#[trigger] seg_dist_sq(p@, piece(vs, i).0, piece(vs, i).1)).0 == 0;
        lemma_seg_dist_zero(p@, piece(vs, i).0, piece(vs, i).1);
    }
}

} // verus!
