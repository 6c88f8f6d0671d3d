//! Scaled rotations, translations and similarities of the integer plane.
use vstd::prelude::*;
use crate::vector::{
    Vec2, Vector, fits, fits_i128, vadd, vsub, vneg, vnorm_sq, cmul, lemma_i64_product,
    lemma_norm_sq_zero, lemma_mul_bound,
};

verus! {

/// The complex conjugate of `a.x + i a.y`.
pub open spec fn conj(a: Vec2) -> Vec2 {
    (a.0, -a.1)
}

/// The mathematical action of a similarity `(r, t)`: `v ↦ r·v + t`.
pub open spec fn sim_map(s: (Vec2, Vec2), v: Vec2) -> Vec2 {
    vadd(cmul(s.0, v), s.1)
}

/// The similarity that applies `b` first and `a` second.
pub open spec fn sim_compose(a: (Vec2, Vec2), b: (Vec2, Vec2)) -> (Vec2, Vec2) {
    (cmul(a.0, b.0), vadd(cmul(a.0, b.1), a.1))
}

pub open spec fn sim_ident() -> (Vec2, Vec2) {
    ((1int, 0int), (0int, 0int))
}

/// The inverse of a similarity whose scaled rotation is a unit:
/// `(r, t)⁻¹ = (conj(r), -conj(r)·t)`.
pub open spec fn sim_inverse(s: (Vec2, Vec2)) -> (Vec2, Vec2) {
    (conj(s.0), vneg(cmul(conj(s.0), s.1)))
}

/// The lattice point that `s` sends to `p`, computed as
/// `conj(r)·(p - t) / |r|²` when that quotient is exact and fits `i64`.
pub open spec fn sim_unapply(s: (Vec2, Vec2), p: Vec2) -> Option<Vec2> {
    let n = vnorm_sq(s.0);
    let q = cmul(conj(s.0), vsub(p, s.1));
    if n != 0 && q.0 % n == 0 && q.1 % n == 0 && fits((q.0 / n, q.1 / n)) {
        Some((q.0 / n, q.1 / n))
    } else {
        None
    }
}

/// A map of the plane that can be composed with another of its kind.
pub trait Transform: Sized {
    /// What the transform does to a vector.
    spec fn map(&self, v: Vec2) -> Vec2;

    /// The exact result of `apply` fits the coordinate type.
    spec fn apply_req(&self, v: Vec2) -> bool;

    /// The exact result of `compose` fits the coordinate type.
    spec fn compose_req(&self, other: &Self) -> bool;

    /// The transform that applies `other` first and `self` second.
    fn compose(&self, other: &Self) -> (r: Self)
        requires
            self.compose_req(other),
        ensures
            forall|v: Vec2| #[trigger] r.map(v) == self.map(other.map(v)),
    ;

    fn apply(&self, v: Vector) -> (r: Vector)
        requires
            self.apply_req(v@),
        ensures
            r@ == self.map(v@),
    ;
}

/// Multiplication by the complex number `re + i im`: a rotation by its
/// argument combined with a uniform scaling by its modulus.
#[derive(Debug, Clone, Copy, PartialEq, Eq, Structural)]
pub struct ScaledRotation(pub Vector);

impl View for ScaledRotation {
    type V = Vec2;

    open spec fn view(&self) -> Vec2 {
        self.0@
    }
}

impl ScaledRotation {
    pub fn new(complex: Vector) -> (r: ScaledRotation)
        ensures
            r@ == complex@,
    {
        ScaledRotation(complex)
    }

    /// The identity, `1 + 0i`.
    pub fn ident() -> (r: ScaledRotation)
        ensures
            r@ == (1int, 0int),
    {
        ScaledRotation(Vector::unit_x())
    }

    pub fn re(self) -> (r: i64)
        ensures
            r == self@.0,
    {
        self.0.x
    }

    pub fn im(self) -> (r: i64)
        ensures
            r == self@.1,
    {
        self.0.y
    }

    /// The square of the scale factor, that is of the modulus.
    pub fn scale_sq(self) -> (r: i128)
        requires
            fits_i128(vnorm_sq(self@)),
        ensures
            r == vnorm_sq(self@),
    {
        self.0.norm_sq()
    }

    /// Complex multiplication: scales multiply and rotations add up.
    pub fn compose(self, other: ScaledRotation) -> (r: ScaledRotation)
        requires
            fits(cmul(self@, other@)),
        ensures
            r@ == cmul(self@, other@),
    {
        ScaledRotation(self.0.complex_product(other.0))
    }

    pub fn apply(self, vector: Vector) -> (r: Vector)
        requires
            fits(cmul(self@, vector@)),
        ensures
            r@ == cmul(self@, vector@),
    {
        self.0.complex_product(vector)
    }
}

impl Transform for ScaledRotation {
    open spec fn map(&self, v: Vec2) -> Vec2 {
        cmul(self@, v)
    }

    open spec fn apply_req(&self, v: Vec2) -> bool {
        fits(cmul(self@, v))
    }

    open spec fn compose_req(&self, other: &Self) -> bool {
        fits(cmul(self@, other@))
    }

    fn compose(&self, other: &Self) -> (r: Self) {
        let r = ScaledRotation::compose(*self, *other);
        proof {
            assert forall|v: Vec2| #[trigger] r.map(v) == self.map(other.map(v)) by {
                lemma_cmul_assoc(self@, other@, v);
            }
        }
        r
    }

    fn apply(&self, v: Vector) -> (r: Vector) {
        ScaledRotation::apply(*self, v)
    }
}

/// A shift of the plane by a fixed offset.
#[derive(Debug, Clone, Copy, PartialEq, Eq, Structural)]
pub struct Translation(pub Vector);

impl View for Translation {
    type V = Vec2;

    open spec fn view(&self) -> Vec2 {
        self.0@
    }
}

impl Translation {
    pub fn new(x: i64, y: i64) -> (r: Translation)
        ensures
            r@ == (x as int, y as int),
    {
        Translation(Vector::new(x, y))
    }

    /// The identity, the shift by the zero vector.
    pub fn ident() -> (r: Translation)
        ensures
            r@ == (0int, 0int),
    {
        Translation(Vector::zero())
    }

    pub fn from_vector(vector: Vector) -> (r: Translation)
        ensures
            r@ == vector@,
    {
        Translation(vector)
    }

    pub fn as_vector(self) -> (r: Vector)
        ensures
            r@ == self@,
    {
        self.0
    }

    /// Composes `other` into `self`.
    pub fn mul_assign(&mut self, other: Translation)
        requires
            fits(vadd(old(self)@, other@)),
        ensures
            final(self)@ == vadd(old(self)@, other@),
    {
        *self = self.compose(other);
    }

    /// Offsets add up.
    pub fn compose(self, other: Translation) -> (r: Translation)
        requires
            fits(vadd(self@, other@)),
        ensures
            r@ == vadd(self@, other@),
    {
        Translation(self.0.add(other.0))
    }

    pub fn apply(self, vector: Vector) -> (r: Vector)
        requires
            fits(vadd(vector@, self@)),
        ensures
            r@ == vadd(vector@, self@),
    {
        vector.add(self.0)
    }
}

impl Transform for Translation {
    open spec fn map(&self, v: Vec2) -> Vec2 {
        vadd(v, self@)
    }

    open spec fn apply_req(&self, v: Vec2) -> bool {
        fits(vadd(v, self@))
    }

    open spec fn compose_req(&self, other: &Self) -> bool {
        fits(vadd(self@, other@))
    }

    fn compose(&self, other: &Self) -> (r: Self) {
        Translation::compose(*self, *other)
    }

    fn apply(&self, v: Vector) -> (r: Vector) {
        Translation::apply(*self, v)
    }
}

/// A scaled rotation followed by a translation: `v ↦ r·v + t`.
#[derive(Debug, Clone, Copy, PartialEq, Eq, Structural)]
pub struct Similarity {
    pub scaled_rotation: ScaledRotation,
    pub translation: Translation,
}

impl View for Similarity {
    type V = (Vec2, Vec2);

    open spec fn view(&self) -> (Vec2, Vec2) {
        (self.scaled_rotation@, self.translation@)
    }
}

/// The exact results of `compose` fit the coordinate type.
pub open spec fn sim_compose_fits(a: (Vec2, Vec2), b: (Vec2, Vec2)) -> bool {
    fits(cmul(a.0, b.0)) && fits(cmul(a.0, b.1)) && fits(vadd(cmul(a.0, b.1), a.1))
}

/// The exact results of `apply` fit the coordinate type.
pub open spec fn sim_apply_fits(s: (Vec2, Vec2), v: Vec2) -> bool {
    fits(cmul(s.0, v)) && fits(sim_map(s, v))
}

/// The intermediate values of `unapply` fit the arithmetic.
pub open spec fn sim_unapply_fits(s: (Vec2, Vec2), p: Vec2) -> bool {
    let w = vsub(p, s.1);
    fits(w) && fits_i128(vnorm_sq(s.0)) && fits_i128(cmul(conj(s.0), w).0) && fits_i128(
        cmul(conj(s.0), w).1,
    )
}

impl Similarity {
    pub fn new(scaled_rotation: ScaledRotation, translation: Translation) -> (r: Similarity)
        ensures
            r@ == (scaled_rotation@, translation@),
    {
        Similarity { scaled_rotation, translation }
    }

    pub fn ident() -> (r: Similarity)
        ensures
            r@ == sim_ident(),
    {
        Similarity { scaled_rotation: ScaledRotation::ident(), translation: Translation::ident() }
    }

    /// The pure translation by `translation`.
    pub fn from_translation(translation: Translation) -> (r: Similarity)
        ensures
            r@ == ((1int, 0int), translation@),
    {
        Similarity { scaled_rotation: ScaledRotation::ident(), translation }
    }

    /// The pure scaled rotation `scaled_rotation`.
    pub fn from_scaled_rotation(scaled_rotation: ScaledRotation) -> (r: Similarity)
        ensures
            r@ == (scaled_rotation@, (0int, 0int)),
    {
        Similarity { scaled_rotation, translation: Translation::ident() }
    }

    pub fn scaled_rotation(&self) -> (r: ScaledRotation)
        ensures
            r == self.scaled_rotation,
    {
        self.scaled_rotation
    }

    pub fn translation(&self) -> (r: Translation)
        ensures
            r == self.translation,
    {
        self.translation
    }

    pub fn translation_vector(&self) -> (r: Vector)
        ensures
            r@ == self@.1,
    {
        self.translation.as_vector()
    }

    /// The similarity that applies `other` first and `self` second:
    /// `(r1, t1)∘(r2, t2) = (r1·r2, r1·t2 + t1)`.
    pub fn compose(&self, other: &Similarity) -> (r: Similarity)
        requires
            sim_compose_fits(self@, other@),
        ensures
            r@ == sim_compose(self@, other@),
    {
        let rot = self.scaled_rotation.compose(other.scaled_rotation);
        let shift = self.scaled_rotation.apply(other.translation.as_vector()).add(
            self.translation.as_vector(),
        );
        Similarity { scaled_rotation: rot, translation: Translation(shift) }
    }

    /// Composes `other` into `self`, so that `other` is applied first.
    pub fn mul_assign(&mut self, other: &Similarity)
        requires
            sim_compose_fits(old(self)@, other@),
        ensures
            final(self)@ == sim_compose(old(self)@, other@),
    {
        *self = self.compose(other);
    }

    /// Scales and rotates `vector`, then translates it.
    pub fn apply(&self, vector: Vector) -> (r: Vector)
        requires
            sim_apply_fits(self@, vector@),
        ensures
            r@ == sim_map(self@, vector@),
    {
        self.translation.apply(self.scaled_rotation.apply(vector))
    }

    /// Scales and rotates `vector`, then translates it; `None` where the
    /// result or the intermediate rotated vector does not fit `i64`.
    pub fn checked_apply(&self, vector: Vector) -> (r: Option<Vector>)
        ensures
            r is Some <==> sim_apply_fits(self@, vector@),
            r matches Some(w) ==> w@ == sim_map(self@, vector@),
    {
        let a = self.scaled_rotation.0;
        proof {
            lemma_i64_product(a.x as int, vector.x as int);
            lemma_i64_product(a.y as int, vector.y as int);
            lemma_i64_product(a.x as int, vector.y as int);
            lemma_i64_product(a.y as int, vector.x as int);
        }
        let xx = (a.x as i128) * (vector.x as i128);
        let yy = (a.y as i128) * (vector.y as i128);
        let xy = (a.x as i128) * (vector.y as i128);
        let yx = (a.y as i128) * (vector.x as i128);
        let re = match xx.checked_sub(yy) {
            Some(re) => re,
            None => return None,
        };
        let im = match xy.checked_add(yx) {
            Some(im) => im,
            None => return None,
        };
        if re < i64::MIN as i128 || re > i64::MAX as i128 || im < i64::MIN as i128 || im
            > i64::MAX as i128 {
            return None;
        }
        let x = re + self.translation.0.x as i128;
        let y = im + self.translation.0.y as i128;
        if x < i64::MIN as i128 || x > i64::MAX as i128 || y < i64::MIN as i128 || y
            > i64::MAX as i128 {
            return None;
        }
        Some(Vector::new(x as i64, y as i64))
    }

    /// The inverse similarity, which exists on the integer lattice exactly
    /// when the scaled rotation is a unit (`±1` or `±i`); `None` otherwise or
    /// where the inverse's offset does not fit `i64`.
    pub fn inverse(&self) -> (r: Option<Similarity>)
        ensures
            r is Some <==> vnorm_sq(self@.0) == 1 && fits(sim_inverse(self@).1),
            r matches Some(inv) ==> inv@ == sim_inverse(self@),
    {
        let re = self.scaled_rotation.0.x;
        let im = self.scaled_rotation.0.y;
        let t = self.translation.0;
        proof {
            lemma_norm_sq_zero(self@.0);
            if vnorm_sq(self@.0) == 1 {
                assert(-1 <= re <= 1 && -1 <= im <= 1) by (nonlinear_arith)
                    requires
                        re as int * re as int + im as int * im as int == 1,
                ;
            }
        }
        if re < -1 || re > 1 || im < -1 || im > 1 {
            return None;
        }
        proof {
            let (a, b) = (re as int, im as int);
            assert(a * a == (if a == 0 {
                0int
            } else {
                1int
            })) by (nonlinear_arith)
                requires
                    -1 <= a <= 1,
            ;
            assert(b * b == (if b == 0 {
                0int
            } else {
                1int
            })) by (nonlinear_arith)
                requires
                    -1 <= b <= 1,
            ;
        }
        if (re == 0) == (im == 0) {
            return None;
        }
        proof {
            lemma_mul_bound(re as int, t.x as int, 1, 0x8000_0000_0000_0000);
            lemma_mul_bound(im as int, t.y as int, 1, 0x8000_0000_0000_0000);
            lemma_mul_bound(re as int, t.y as int, 1, 0x8000_0000_0000_0000);
            lemma_mul_bound(im as int, t.x as int, 1, 0x8000_0000_0000_0000);
            let (a, b, c, d) = (re as int, im as int, t.x as int, t.y as int);
            assert((-b) * d == -(b * d) && (-b) * c == -(b * c)) by (nonlinear_arith);
        }
        // conj(r)·t, negated
        let x = -((re as i128) * (t.x as i128) + (im as i128) * (t.y as i128));
        let y = -((re as i128) * (t.y as i128) - (im as i128) * (t.x as i128));
        if x < i64::MIN as i128 || x > i64::MAX as i128 || y < i64::MIN as i128 || y
            > i64::MAX as i128 {
            return None;
        }
        Some(
            Similarity {
                scaled_rotation: ScaledRotation(Vector::new(re, -im)),
                translation: Translation(Vector::new(x as i64, y as i64)),
            },
        )
    }

    /// The lattice point that this similarity sends to `point`, if there is
    /// one that fits the coordinate type.
    pub fn unapply(&self, point: Vector) -> (r: Option<Vector>)
        requires
            sim_unapply_fits(self@, point@),
        ensures
            r matches Some(v) ==> sim_unapply(self@, point@) == Some(v@),
            r is None ==> sim_unapply(self@, point@) is None,
    {
        let w = point.sub(self.translation.as_vector());
        let rot = self.scaled_rotation.0;
        let n = rot.norm_sq();
        if n == 0 {
            return None;
        }
        proof {
            lemma_i64_product(rot.x as int, w.x as int);
            lemma_i64_product(rot.y as int, w.y as int);
            lemma_i64_product(rot.x as int, w.y as int);
            lemma_i64_product(rot.y as int, w.x as int);
            let (a, b) = (rot.y as int, w.y as int);
            assert((-a) * b == -(a * b)) by (nonlinear_arith);
            let (c, d) = (rot.y as int, w.x as int);
            assert((-c) * d == -(c * d)) by (nonlinear_arith);
        }
        let qx = (rot.x as i128) * (w.x as i128) + (rot.y as i128) * (w.y as i128);
        let qy = (rot.x as i128) * (w.y as i128) - (rot.y as i128) * (w.x as i128);
        proof {
            crate::vector::lemma_neg_divides(qx as int, n as int);
            crate::vector::lemma_neg_divides(qy as int, n as int);
        }
        if qx % n != 0 || qy % n != 0 {
            return None;
        }
        let x = qx / n;
        let y = qy / n;
        proof {
            crate::vector::lemma_exact_quotient(qx as int, n as int, x as int);
            crate::vector::lemma_exact_quotient(qy as int, n as int, y as int);
            lemma_quotient_matches(qx as int, n as int, x as int);
            lemma_quotient_matches(qy as int, n as int, y as int);
        }
        if x < i64::MIN as i128 || x > i64::MAX as i128 || y < i64::MIN as i128 || y
            > i64::MAX as i128 {
            return None;
        }
        Some(Vector::new(x as i64, y as i64))
    }
}

/// An exact quotient is the same whichever way the division rounds.
proof fn lemma_quotient_matches(a: int, n: int, q: int)
    requires
        n > 0,
        a % n == 0,
        q * n == a,
    ensures
        q == a / n,
{
    vstd::arithmetic::div_mod::lemma_fundamental_div_mod(a, n);
    assert(q == a / n) by (nonlinear_arith)
        requires
            n > 0,
            q * n == a,
            a == n * (a / n) + a % n,
            a % n == 0,
    ;
}

impl Transform for Similarity {
    open spec fn map(&self, v: Vec2) -> Vec2 {
        sim_map(self@, v)
    }

    open spec fn apply_req(&self, v: Vec2) -> bool {
        sim_apply_fits(self@, v)
    }

    open spec fn compose_req(&self, other: &Self) -> bool {
        sim_compose_fits(self@, other@)
    }

    fn compose(&self, other: &Self) -> (r: Self) {
        let r = Similarity::compose(self, other);
        proof {
            assert forall|v: Vec2| #[trigger] r.map(v) == self.map(other.map(v)) by {
                lemma_sim_compose_map(self@, other@, v);
            }
        }
        r
    }

    fn apply(&self, v: Vector) -> (r: Vector) {
        Similarity::apply(self, v)
    }
}

/// Complex multiplication is commutative.
pub proof fn lemma_cmul_comm(a: Vec2, b: Vec2)
    ensures
        cmul(a, b) == cmul(b, a),
{
    assert(a.0 * b.0 == b.0 * a.0 && a.1 * b.1 == b.1 * a.1 && a.0 * b.1 == b.1 * a.0 && a.1 * b.0
        == b.0 * a.1) by (nonlinear_arith);
}

/// Complex multiplication is associative.
pub proof fn lemma_cmul_assoc(a: Vec2, b: Vec2, c: Vec2)
    ensures
        cmul(cmul(a, b), c) == cmul(a, cmul(b, c)),
{
    let (a0, a1, b0, b1, c0, c1) = (a.0, a.1, b.0, b.1, c.0, c.1);
    assert((a0 * b0 - a1 * b1) * c0 == (a0 * b0) * c0 - (a1 * b1) * c0) by (nonlinear_arith);
    assert((a0 * b1 + a1 * b0) * c1 == (a0 * b1) * c1 + (a1 * b0) * c1) by (nonlinear_arith);
    assert((a0 * b0 - a1 * b1) * c1 == (a0 * b0) * c1 - (a1 * b1) * c1) by (nonlinear_arith);
    assert((a0 * b1 + a1 * b0) * c0 == (a0 * b1) * c0 + (a1 * b0) * c0) by (nonlinear_arith);
    assert(a0 * (b0 * c0 - b1 * c1) == a0 * (b0 * c0) - a0 * (b1 * c1)) by (nonlinear_arith);
    assert(a1 * (b0 * c1 + b1 * c0) == a1 * (b0 * c1) + a1 * (b1 * c0)) by (nonlinear_arith);
    assert(a0 * (b0 * c1 + b1 * c0) == a0 * (b0 * c1) + a0 * (b1 * c0)) by (nonlinear_arith);
    assert(a1 * (b0 * c0 - b1 * c1) == a1 * (b0 * c0) - a1 * (b1 * c1)) by (nonlinear_arith);
    assert((a0 * b0) * c0 == a0 * (b0 * c0)) by (nonlinear_arith);
    assert((a1 * b1) * c0 == a1 * (b1 * c0)) by (nonlinear_arith);
    assert((a0 * b1) * c1 == a0 * (b1 * c1)) by (nonlinear_arith);
    assert((a1 * b0) * c1 == a1 * (b0 * c1)) by (nonlinear_arith);
    assert((a0 * b0) * c1 == a0 * (b0 * c1)) by (nonlinear_arith);
    assert((a1 * b1) * c1 == a1 * (b1 * c1)) by (nonlinear_arith);
    assert((a0 * b1) * c0 == a0 * (b1 * c0)) by (nonlinear_arith);
    assert((a1 * b0) * c0 == a1 * (b0 * c0)) by (nonlinear_arith);
}

/// `1 + 0i` is a two-sided identity of complex multiplication.
pub proof fn lemma_cmul_ident(a: Vec2)
    ensures
        cmul((1int, 0int), a) == a,
        cmul(a, (1int, 0int)) == a,
{
}

/// Composition of scaled rotations is commutative and associative, and the
/// identity rotation is neutral on both sides.
pub proof fn lemma_scaled_rotation_group(a: ScaledRotation, b: ScaledRotation, c: ScaledRotation)
    ensures
        cmul(a@, b@) == cmul(b@, a@),
        cmul(cmul(a@, b@), c@) == cmul(a@, cmul(b@, c@)),
        cmul((1int, 0int), a@) == a@,
        cmul(a@, (1int, 0int)) == a@,
{
    lemma_cmul_comm(a@, b@);
    lemma_cmul_assoc(a@, b@, c@);
    lemma_cmul_ident(a@);
}

/// Multiplication distributes over addition.
proof fn lemma_cmul_add(a: Vec2, b: Vec2, c: Vec2)
    ensures
        cmul(a, vadd(b, c)) == vadd(cmul(a, b), cmul(a, c)),
{
    let (a0, a1, b0, b1, c0, c1) = (a.0, a.1, b.0, b.1, c.0, c.1);
    assert(a0 * (b0 + c0) - a1 * (b1 + c1) == (a0 * b0 - a1 * b1) + (a0 * c0 - a1 * c1))
        by (nonlinear_arith);
    assert(a0 * (b1 + c1) + a1 * (b0 + c0) == (a0 * b1 + a1 * b0) + (a0 * c1 + a1 * c0))
        by (nonlinear_arith);
}

/// The composite applies the second similarity, then the first.
pub proof fn lemma_sim_compose_map(a: (Vec2, Vec2), b: (Vec2, Vec2), v: Vec2)
    ensures
        sim_map(sim_compose(a, b), v) == sim_map(a, sim_map(b, v)),
{
    lemma_cmul_add(a.0, cmul(b.0, v), b.1);
    lemma_cmul_assoc(a.0, b.0, v);
}

/// Composition of similarities is associative.
pub proof fn lemma_sim_compose_assoc(a: Similarity, b: Similarity, c: Similarity)
    ensures
        sim_compose(sim_compose(a@, b@), c@) == sim_compose(a@, sim_compose(b@, c@)),
{
    lemma_cmul_assoc(a@.0, b@.0, c@.0);
    lemma_cmul_add(a@.0, cmul(b@.0, c@.1), b@.1);
    lemma_cmul_assoc(a@.0, b@.0, c@.1);
}

/// The identity similarity is neutral on both sides of composition.
pub proof fn lemma_sim_ident(a: Similarity)
    ensures
        sim_compose(sim_ident(), a@) == a@,
        sim_compose(a@, sim_ident()) == a@,
{
    lemma_cmul_ident(a@.0);
    lemma_cmul_ident(a@.1);
    assert(cmul(a@.0, (0int, 0int)) == (0int, 0int)) by {
        let (p, q) = (a@.0.0, a@.0.1);
        assert(p * 0 - q * 0 == 0 && p * 0 + q * 0 == 0) by (nonlinear_arith);
    }
}

/// Undoing a similarity with nonzero scale gives back the lattice point it
/// was applied to.
pub proof fn lemma_sim_round_trip(s: Similarity, v: Vector)
    requires
        vnorm_sq(s@.0) != 0,
    ensures
        sim_unapply(s@, sim_map(s@, v@)) == Some(v@),
{
    let r = s@.0;
    let n = vnorm_sq(r);
    let w = vsub(sim_map(s@, v@), s@.1);
    assert(w == cmul(r, v@));
    let q = cmul(conj(r), w);
    lemma_cmul_assoc(conj(r), r, v@);
    let (r0, r1) = (r.0, r.1);
    assert(cmul(conj(r), r) == (n, 0int)) by {
        assert(r0 * r0 - (-r1) * r1 == r0 * r0 + r1 * r1 && r0 * r1 + (-r1) * r0 == 0)
            by (nonlinear_arith);
    }
    lemma_norm_sq_zero(r);
    assert(n > 0);
    let (v0, v1) = (v@.0, v@.1);
    assert(q == (v0 * n, v1 * n)) by {
        assert(n * v0 - 0 * v1 == v0 * n && n * v1 + 0 * v0 == v1 * n) by (nonlinear_arith);
    }
    vstd::arithmetic::div_mod::lemma_mod_multiples_basic(v0, n);
    vstd::arithmetic::div_mod::lemma_mod_multiples_basic(v1, n);
    vstd::arithmetic::div_mod::lemma_div_multiples_vanish(v0, n);
    vstd::arithmetic::div_mod::lemma_div_multiples_vanish(v1, n);
    assert(n * v0 == v0 * n && n * v1 == v1 * n) by (nonlinear_arith);
}

/// For a similarity whose scaled rotation is a unit, `sim_inverse` is a
/// two-sided inverse: composed either way it gives the identity, and applying
/// the similarity and then its inverse gives every point back.
pub proof fn lemma_sim_inverse(s: Similarity, v: Vector)
    requires
        vnorm_sq(s@.0) == 1,
    ensures
        sim_compose(sim_inverse(s@), s@) == sim_ident(),
        sim_compose(s@, sim_inverse(s@)) == sim_ident(),
        sim_map(sim_inverse(s@), sim_map(s@, v@)) == v@,
{
    let r = s@.0;
    let t = s@.1;
    let (r0, r1) = (r.0, r.1);
    assert(cmul(conj(r), r) == (1int, 0int) && cmul(r, conj(r)) == (1int, 0int)) by {
        assert(r0 * r0 - (-r1) * r1 == r0 * r0 + r1 * r1 && r0 * r1 + (-r1) * r0 == 0)
            by (nonlinear_arith);
        assert(r0 * r0 - r1 * (-r1) == r0 * r0 + r1 * r1 && r0 * (-r1) + r1 * r0 == 0)
            by (nonlinear_arith);
    }
    let ct = cmul(conj(r), t);
    lemma_cmul_neg(r, ct);
    lemma_cmul_assoc(r, conj(r), t);
    lemma_cmul_ident(t);
    lemma_sim_compose_map(sim_inverse(s@), s@, v@);
    lemma_cmul_ident(v@);
}

/// Multiplication by a negated vector negates the product.
proof fn lemma_cmul_neg(a: Vec2, b: Vec2)
    ensures
        cmul(a, vneg(b)) == vneg(cmul(a, b)),
{
    let (a0, a1, b0, b1) = (a.0, a.1, b.0, b.1);
    assert(a0 * (-b0) - a1 * (-b1) == -(a0 * b0 - a1 * b1)) by (nonlinear_arith);
    assert(a0 * (-b1) + a1 * (-b0) == -(a0 * b1 + a1 * b0)) by (nonlinear_arith);
}

} // verus!
