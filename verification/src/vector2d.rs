use vstd::prelude::*;

use crate::particle_quad_tree::QuadtreePointValue;

verus! {

/// A two-dimensional vector over an abstract numeric type.
///
/// Pure value type: every operation returns a new vector, and each
/// executable operation is pinned to its spec counterpart componentwise.
#[derive(Clone, Copy)]
pub struct Vector2D<T> {
    pub x: T,
    pub y: T,
}

impl<T: QuadtreePointValue> Vector2D<T> {
    /// Componentwise sum, at the spec level.
    pub open spec fn add_spec(self, rhs: Self) -> Self {
        Vector2D { x: self.x.add_spec(rhs.x), y: self.y.add_spec(rhs.y) }
    }

    /// Componentwise difference, at the spec level.
    pub open spec fn sub_spec(self, rhs: Self) -> Self {
        Vector2D { x: self.x.sub_spec(rhs.x), y: self.y.sub_spec(rhs.y) }
    }

    /// Both components scaled by `rhs`, at the spec level.
    pub open spec fn mul_spec(self, rhs: T) -> Self {
        Vector2D { x: self.x.mul_spec(rhs), y: self.y.mul_spec(rhs) }
    }

    /// Squared length `x*x + y*y`, at the spec level.
    pub open spec fn length_sq_spec(self) -> T {
        self.x.mul_spec(self.x).add_spec(self.y.mul_spec(self.y))
    }

    /// The vector with both components zero.
    pub open spec fn zero_spec() -> Self {
        Vector2D { x: T::zero_spec(), y: T::zero_spec() }
    }

    /// Componentwise sum.
    pub fn add(self, rhs: Self) -> (r: Self)
        ensures
            r == self.add_spec(rhs),
    {
        Vector2D { x: self.x.add(rhs.x), y: self.y.add(rhs.y) }
    }

    /// Componentwise difference.
    pub fn sub(self, rhs: Self) -> (r: Self)
        ensures
            r == self.sub_spec(rhs),
    {
        Vector2D { x: self.x.sub(rhs.x), y: self.y.sub(rhs.y) }
    }

    /// Both components scaled by `rhs`.
    pub fn mul(self, rhs: T) -> (r: Self)
        ensures
            r == self.mul_spec(rhs),
    {
        Vector2D { x: self.x.mul(rhs), y: self.y.mul(rhs) }
    }

    /// Squared length `x*x + y*y`.
    pub fn length_sq(&self) -> (r: T)
        ensures
            r == self.length_sq_spec(),
    {
        self.x.mul(self.x).add(self.y.mul(self.y))
    }

    /// The vector with both components zero.
    pub fn zero() -> (r: Self)
        ensures
            r == Self::zero_spec(),
    {
        Vector2D { x: T::zero(), y: T::zero() }
    }
}

impl<T: QuadtreePointValue> Default for Vector2D<T> {
    /// The zero vector.
    fn default() -> (r: Self)
        ensures
            r == Self::zero_spec(),
    {
        Vector2D { x: T::zero(), y: T::zero() }
    }
}

} // verus!
