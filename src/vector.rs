//! Free vectors of the plane with integer coordinates.
use vstd::prelude::*;

verus! {

/// A pair of integers, the mathematical model of a vector.
pub type Vec2 = (int, int);

pub open spec fn fits_i64(a: int) -> bool {
    i64::MIN <= a <= i64::MAX
}

pub open spec fn fits_i128(a: int) -> bool {
    i128::MIN <= a <= i128::MAX
}

/// Both coordinates are representable as `i64`.
pub open spec fn fits(v: Vec2) -> bool {
    fits_i64(v.0) && fits_i64(v.1)
}

pub open spec fn vadd(a: Vec2, b: Vec2) -> Vec2 {
    (a.0 + b.0, a.1 + b.1)
}

pub open spec fn vsub(a: Vec2, b: Vec2) -> Vec2 {
    (a.0 - b.0, a.1 - b.1)
}

pub open spec fn vscale(a: Vec2, s: int) -> Vec2 {
    (a.0 * s, a.1 * s)
}

pub open spec fn vneg(a: Vec2) -> Vec2 {
    (-a.0, -a.1)
}

/// Rotation by a quarter turn counter-clockwise.
pub open spec fn vperp(a: Vec2) -> Vec2 {
    (-a.1, a.0)
}

pub open spec fn vdot(a: Vec2, b: Vec2) -> int {
    a.0 * b.0 + a.1 * b.1
}

/// The two-dimensional cross product `a.x * b.y - a.y * b.x`.
pub open spec fn vcross(a: Vec2, b: Vec2) -> int {
    a.0 * b.1 - a.1 * b.0
}

pub open spec fn vnorm_sq(a: Vec2) -> int {
    a.0 * a.0 + a.1 * a.1
}

/// The product of `a.x + i a.y` and `b.x + i b.y` as complex numbers.
pub open spec fn cmul(a: Vec2, b: Vec2) -> Vec2 {
    (a.0 * b.0 - a.1 * b.1, a.0 * b.1 + a.1 * b.0)
}

pub(crate) proof fn lemma_mul_bound(a: int, b: int, ba: int, bb: int)
    requires
        -ba <= a <= ba,
        -bb <= b <= bb,
    ensures
        -(ba * bb) <= a * b <= ba * bb,
{
    assert(-(ba * bb) <= a * b <= ba * bb) by (nonlinear_arith)
        requires
            -ba <= a <= ba,
            -bb <= b <= bb,
    ;
}

/// A product of two `i64` values fits comfortably in `i128`.
pub(crate) proof fn lemma_i64_product(a: int, b: int)
    requires
        fits_i64(a),
        fits_i64(b),
    ensures
        -0x4000_0000_0000_0000_0000_0000_0000_0000 <= a * b <= 0x4000_0000_0000_0000_0000_0000_0000_0000,
{
    lemma_mul_bound(a, b, 0x8000_0000_0000_0000, 0x8000_0000_0000_0000);
}

/// A free vector in the plane.
#[derive(Debug, Clone, Copy, PartialEq, Eq, Structural)]
pub struct Vector {
    pub x: i64,
    pub y: i64,
}

impl View for Vector {
    type V = Vec2;

    open spec fn view(&self) -> Vec2 {
        (self.x as int, self.y as int)
    }
}

impl Vector {
    pub fn new(x: i64, y: i64) -> (r: Vector)
        ensures
            r.x == x,
            r.y == y,
    {
        Vector { x, y }
    }

    /// The zero vector.
    pub fn zero() -> (r: Vector)
        ensures
            r@ == (0int, 0int),
    {
        Vector { x: 0, y: 0 }
    }

    /// The unit vector along the x axis.
    pub fn unit_x() -> (r: Vector)
        ensures
            r@ == (1int, 0int),
    {
        Vector { x: 1, y: 0 }
    }

    /// The unit vector along the y axis.
    pub fn unit_y() -> (r: Vector)
        ensures
            r@ == (0int, 1int),
    {
        Vector { x: 0, y: 1 }
    }

    pub fn scale(self, scalar: i64) -> (r: Vector)
        requires
            fits(vscale(self@, scalar as int)),
        ensures
            r@ == vscale(self@, scalar as int),
    {
        Vector { x: self.x * scalar, y: self.y * scalar }
    }

    pub fn add(self, other: Vector) -> (r: Vector)
        requires
            fits(vadd(self@, other@)),
        ensures
            r@ == vadd(self@, other@),
    {
        Vector { x: self.x + other.x, y: self.y + other.y }
    }

    pub fn sub(self, other: Vector) -> (r: Vector)
        requires
            fits(vsub(self@, other@)),
        ensures
            r@ == vsub(self@, other@),
    {
        Vector { x: self.x - other.x, y: self.y - other.y }
    }

    pub fn neg(self) -> (r: Vector)
        requires
            fits(vneg(self@)),
        ensures
            r@ == vneg(self@),
    {
        Vector { x: -self.x, y: -self.y }
    }

    /// The vector turned a quarter turn counter-clockwise.
    pub fn perp(self) -> (r: Vector)
        requires
            fits(vperp(self@)),
        ensures
            r@ == vperp(self@),
    {
        Vector { x: -self.y, y: self.x }
    }

    pub fn dot(self, other: Vector) -> (r: i128)
        requires
            fits_i128(vdot(self@, other@)),
        ensures
            r == vdot(self@, other@),
    {
        proof {
            lemma_i64_product(self.x as int, other.x as int);
            lemma_i64_product(self.y as int, other.y as int);
        }
        (self.x as i128) * (other.x as i128) + (self.y as i128) * (other.y as i128)
    }

    /// The dot product of `self.perp()` with `other`, that is the cross
    /// product `self.x * other.y - self.y * other.x`.
    pub fn perp_dot(self, other: Vector) -> (r: i128)
        requires
            fits_i128(vcross(self@, other@)),
        ensures
            r == vcross(self@, other@),
            r == vdot(vperp(self@), other@),
    {
        proof {
            lemma_i64_product(self.x as int, other.y as int);
            lemma_i64_product(self.y as int, other.x as int);
            let (y, ox) = (self.y as int, other.x as int);
            assert((-y) * ox == -(y * ox)) by (nonlinear_arith);
        }
        (self.x as i128) * (other.y as i128) - (self.y as i128) * (other.x as i128)
    }

    /// The squared length.
    pub fn norm_sq(self) -> (r: i128)
        requires
            fits_i128(vnorm_sq(self@)),
        ensures
            r == vnorm_sq(self@),
            r >= 0,
            r == 0 <==> self@ == (0int, 0int),
    {
        proof {
            lemma_i64_product(self.x as int, self.x as int);
            lemma_i64_product(self.y as int, self.y as int);
            lemma_norm_sq_zero(self@);
        }
        (self.x as i128) * (self.x as i128) + (self.y as i128) * (self.y as i128)
    }

    /// The product of the two vectors read as complex numbers `x + iy`.
    pub fn complex_product(self, other: Vector) -> (r: Vector)
        requires
            fits(cmul(self@, other@)),
        ensures
            r@ == cmul(self@, other@),
    {
        proof {
            lemma_i64_product(self.x as int, other.x as int);
            lemma_i64_product(self.y as int, other.y as int);
            lemma_i64_product(self.x as int, other.y as int);
            lemma_i64_product(self.y as int, other.x as int);
        }
        let re = (self.x as i128) * (other.x as i128) - (self.y as i128) * (other.y as i128);
        let im = (self.x as i128) * (other.y as i128) + (self.y as i128) * (other.x as i128);
        Vector { x: re as i64, y: im as i64 }
    }

    /// Multiplies both coordinates by `scalar` in place.
    pub fn mul_assign(&mut self, scalar: i64)
        requires
            fits(vscale(old(self)@, scalar as int)),
        ensures
            final(self)@ == vscale(old(self)@, scalar as int),
    {
        *self = self.scale(scalar);
    }

    /// Divides both coordinates by a positive `divisor`; `None` unless both
    /// quotients are exact.
    pub fn checked_div(self, divisor: i64) -> (r: Option<Vector>)
        ensures
            r is Some <==> divisor > 0 && (self.x as int) % (divisor as int) == 0
                && (self.y as int) % (divisor as int) == 0,
            r matches Some(q) ==> vscale(q@, divisor as int) == self@,
    {
        if divisor <= 0 {
            return None;
        }
        proof {
            lemma_neg_divides(self.x as int, divisor as int);
            lemma_neg_divides(self.y as int, divisor as int);
        }
        if self.x % divisor != 0 || self.y % divisor != 0 {
            return None;
        }
        let qx = self.x / divisor;
        let qy = self.y / divisor;
        proof {
            lemma_exact_quotient(self.x as int, divisor as int, qx as int);
            lemma_exact_quotient(self.y as int, divisor as int, qy as int);
        }
        Some(Vector { x: qx, y: qy })
    }

    pub fn add_assign(&mut self, other: Vector)
        requires
            fits(vadd(old(self)@, other@)),
        ensures
            final(self)@ == vadd(old(self)@, other@),
    {
        *self = self.add(other);
    }

    pub fn sub_assign(&mut self, other: Vector)
        requires
            fits(vsub(old(self)@, other@)),
        ensures
            final(self)@ == vsub(old(self)@, other@),
    {
        *self = self.sub(other);
    }
}

pub(crate) proof fn lemma_neg_divides(a: int, d: int)
    requires
        d > 0,
    ensures
        ((-a) % d == 0) == (a % d == 0),
{
    vstd::arithmetic::div_mod::lemma_fundamental_div_mod(a, d);
    vstd::arithmetic::div_mod::lemma_fundamental_div_mod(-a, d);
    if a % d == 0 {
        vstd::arithmetic::div_mod::lemma_mod_multiples_basic(-(a / d), d);
        assert(-(a / d) * d == -a) by (nonlinear_arith)
            requires
                a == d * (a / d),
        ;
    }
    if (-a) % d == 0 {
        vstd::arithmetic::div_mod::lemma_mod_multiples_basic(-((-a) / d), d);
        assert(-((-a) / d) * d == a) by (nonlinear_arith)
            requires
                -a == d * ((-a) / d),
        ;
    }
}

/// Where `d` divides `a`, the truncated quotient `q` times `d` gives `a` back.
pub(crate) proof fn lemma_exact_quotient(a: int, d: int, q: int)
    requires
        d > 0,
        a % d == 0,
        a >= 0 ==> q == a / d,
        a < 0 ==> q == -((-a) / d),
    ensures
        q * d == a,
{
    lemma_neg_divides(a, d);
    vstd::arithmetic::div_mod::lemma_fundamental_div_mod(a, d);
    vstd::arithmetic::div_mod::lemma_fundamental_div_mod(-a, d);
    assert(q * d == a) by (nonlinear_arith)
        requires
            a == d * (a / d) + a % d,
            -a == d * ((-a) / d) + (-a) % d,
            a % d == 0,
            (-a) % d == 0,
            a >= 0 ==> q == a / d,
            a < 0 ==> q == -((-a) / d),
    ;
}

impl core::ops::Add for Vector {
    type Output = Vector;

    fn add(self, rhs: Vector) -> (r: Vector) {
        Vector::add(self, rhs)
    }
}

impl vstd::std_specs::ops::AddSpecImpl for Vector {
    open spec fn obeys_add_spec() -> bool {
        true
    }

    open spec fn add_req(self, rhs: Vector) -> bool {
        fits(vadd(self@, rhs@))
    }

    open spec fn add_spec(self, rhs: Vector) -> Vector {
        Vector { x: (self.x + rhs.x) as i64, y: (self.y + rhs.y) as i64 }
    }
}

impl core::ops::Sub for Vector {
    type Output = Vector;

    fn sub(self, rhs: Vector) -> (r: Vector) {
        Vector::sub(self, rhs)
    }
}

impl vstd::std_specs::ops::SubSpecImpl for Vector {
    open spec fn obeys_sub_spec() -> bool {
        true
    }

    open spec fn sub_req(self, rhs: Vector) -> bool {
        fits(vsub(self@, rhs@))
    }

    open spec fn sub_spec(self, rhs: Vector) -> Vector {
        Vector { x: (self.x - rhs.x) as i64, y: (self.y - rhs.y) as i64 }
    }
}

impl core::ops::Neg for Vector {
    type Output = Vector;

    fn neg(self) -> (r: Vector) {
        Vector::neg(self)
    }
}

impl vstd::std_specs::ops::NegSpecImpl for Vector {
    open spec fn obeys_neg_spec() -> bool {
        true
    }

    open spec fn neg_req(self) -> bool {
        fits(vneg(self@))
    }

    open spec fn neg_spec(self) -> Vector {
        Vector { x: (-self.x) as i64, y: (-self.y) as i64 }
    }
}

impl core::ops::Mul<i64> for Vector {
    type Output = Vector;

    fn mul(self, rhs: i64) -> (r: Vector) {
        self.scale(rhs)
    }
}

impl vstd::std_specs::ops::MulSpecImpl<i64> for Vector {
    open spec fn obeys_mul_spec() -> bool {
        true
    }

    open spec fn mul_req(self, rhs: i64) -> bool {
        fits(vscale(self@, rhs as int))
    }

    open spec fn mul_spec(self, rhs: i64) -> Vector {
        Vector { x: (self.x * rhs) as i64, y: (self.y * rhs) as i64 }
    }
}

/// The squared length of a vector is never negative, and it is zero exactly
/// for the zero vector.
pub proof fn lemma_norm_sq_zero(a: Vec2)
    ensures
        vnorm_sq(a) >= 0,
        vnorm_sq(a) == 0 <==> a == (0int, 0int),
{
    assert(a.0 * a.0 >= 0) by (nonlinear_arith);
    assert(a.1 * a.1 >= 0) by (nonlinear_arith);
    if a.0 != 0 {
        assert(a.0 * a.0 > 0) by (nonlinear_arith)
            requires
                a.0 != 0,
        ;
    }
    if a.1 != 0 {
        assert(a.1 * a.1 > 0) by (nonlinear_arith)
            requires
                a.1 != 0,
        ;
    }
}

} // verus!
