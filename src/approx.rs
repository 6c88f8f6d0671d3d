//! Approximate equality with a non-negative integer tolerance.
use vstd::prelude::*;
use crate::vector::Vector;
use crate::shape::{Point, Segment};
use crate::chain::Chain;
use crate::transform::{ScaledRotation, Translation, Similarity};

verus! {

/// Equality up to a tolerance on every coordinate.
pub trait ApproxEq {
    spec fn approx_eq_spec(&self, other: &Self, tolerance: int) -> bool;

    fn approx_eq(&self, other: &Self, tolerance: u64) -> (r: bool)
        ensures
            r == self.approx_eq_spec(other, tolerance as int),
    ;

    fn approx_ne(&self, other: &Self, tolerance: u64) -> (r: bool)
        ensures
            r == !self.approx_eq_spec(other, tolerance as int),
    {
        !self.approx_eq(other, tolerance)
    }
}

/// `|a - b| <= tolerance`.
pub open spec fn within(a: int, b: int, tolerance: int) -> bool {
    -tolerance <= a - b <= tolerance
}

impl ApproxEq for i64 {
    open spec fn approx_eq_spec(&self, other: &Self, tolerance: int) -> bool {
        within(*self as int, *other as int, tolerance)
    }

    fn approx_eq(&self, other: &Self, tolerance: u64) -> (r: bool) {
        let d = (*other as i128) - (*self as i128);
        -(tolerance as i128) <= d && d <= tolerance as i128
    }
}

impl ApproxEq for Vector {
    open spec fn approx_eq_spec(&self, other: &Self, tolerance: int) -> bool {
        within(self.x as int, other.x as int, tolerance) && within(
            self.y as int,
            other.y as int,
            tolerance,
        )
    }

    fn approx_eq(&self, other: &Self, tolerance: u64) -> (r: bool) {
        self.x.approx_eq(&other.x, tolerance) && self.y.approx_eq(&other.y, tolerance)
    }
}

impl ApproxEq for Point {
    open spec fn approx_eq_spec(&self, other: &Self, tolerance: int) -> bool {
        self.0.approx_eq_spec(&other.0, tolerance)
    }

    fn approx_eq(&self, other: &Self, tolerance: u64) -> (r: bool) {
        self.0.approx_eq(&other.0, tolerance)
    }
}

impl ApproxEq for Segment {
    open spec fn approx_eq_spec(&self, other: &Self, tolerance: int) -> bool {
        self.start.approx_eq_spec(&other.start, tolerance) && self.end.approx_eq_spec(
            &other.end,
            tolerance,
        )
    }

    fn approx_eq(&self, other: &Self, tolerance: u64) -> (r: bool) {
        self.start.approx_eq(&other.start, tolerance) && self.end.approx_eq(&other.end, tolerance)
    }
}

impl ApproxEq for ScaledRotation {
    open spec fn approx_eq_spec(&self, other: &Self, tolerance: int) -> bool {
        self.0.approx_eq_spec(&other.0, tolerance)
    }

    fn approx_eq(&self, other: &Self, tolerance: u64) -> (r: bool) {
        self.0.approx_eq(&other.0, tolerance)
    }
}

impl ApproxEq for Translation {
    open spec fn approx_eq_spec(&self, other: &Self, tolerance: int) -> bool {
        self.0.approx_eq_spec(&other.0, tolerance)
    }

    fn approx_eq(&self, other: &Self, tolerance: u64) -> (r: bool) {
        self.0.approx_eq(&other.0, tolerance)
    }
}

impl ApproxEq for Similarity {
    open spec fn approx_eq_spec(&self, other: &Self, tolerance: int) -> bool {
        self.scaled_rotation.approx_eq_spec(&other.scaled_rotation, tolerance)
            && self.translation.approx_eq_spec(&other.translation, tolerance)
    }

    fn approx_eq(&self, other: &Self, tolerance: u64) -> (r: bool) {
        self.scaled_rotation.approx_eq(&other.scaled_rotation, tolerance)
            && self.translation.approx_eq(&other.translation, tolerance)
    }
}

/// Sequences are approximately equal when their lengths match exactly and
/// corresponding items are approximately equal.
impl<T: ApproxEq> ApproxEq for Vec<T> {
    open spec fn approx_eq_spec(&self, other: &Self, tolerance: int) -> bool {
        self@.len() == other@.len() && forall|i: int|
            0 <= i < self@.len() ==> (#[trigger] self@[i]).approx_eq_spec(&other@[i], tolerance)
    }

    fn approx_eq(&self, other: &Self, tolerance: u64) -> (r: bool) {
        if self.len() != other.len() {
            return false;
        }
        let mut i: usize = 0;
        while i < self.len()
            invariant
                self@.len() == other@.len(),
                0 <= i <= self@.len(),
                forall|j: int|
                    0 <= j < i ==> (#[trigger] self@[j]).approx_eq_spec(&other@[j], tolerance as int),
            decreases self@.len() - i,
        {
            if !self[i].approx_eq(&other[i], tolerance) {
                return false;
            }
            i += 1;
        }
        true
    }
}

impl ApproxEq for Chain {
    open spec fn approx_eq_spec(&self, other: &Self, tolerance: int) -> bool {
        self.vertices.approx_eq_spec(&other.vertices, tolerance)
    }

    fn approx_eq(&self, other: &Self, tolerance: u64) -> (r: bool) {
        self.vertices.approx_eq(&other.vertices, tolerance)
    }
}

} // verus!
