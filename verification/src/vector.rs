//! Two-dimensional integer vectors and their mathematical model.

use vstd::prelude::*;
use crate::arith::{floor_sqrt, isqrt, lemma_mul_bounds};

verus! {

/// Largest component magnitude of a vector whose length is computed.
pub const MAGNITUDE_LIMIT: i128 = 9_000_000_000_000_000_000;

/// A vector of the integer plane, as contracts see it.
pub struct Vector {
    pub x: int,
    pub y: int,
}

impl Vector {
    pub open spec fn plus(self, other: Vector) -> Vector {
        Vector { x: self.x + other.x, y: self.y + other.y }
    }

    pub open spec fn minus(self, other: Vector) -> Vector {
        Vector { x: self.x - other.x, y: self.y - other.y }
    }

    pub open spec fn negated(self) -> Vector {
        Vector { x: -self.x, y: -self.y }
    }

    /// Square of the Euclidean length.
    pub open spec fn norm_sq(self) -> int {
        self.x * self.x + self.y * self.y
    }

    /// The Euclidean length, rounded down.
    pub open spec fn magnitude(self) -> nat {
        floor_sqrt(self.norm_sq() as nat)
    }

    /// Both components lie in `[-limit, limit]`.
    pub open spec fn within(self, limit: int) -> bool {
        -limit <= self.x <= limit && -limit <= self.y <= limit
    }
}

/// A vector with machine-integer components.
#[derive(Clone, Copy, Debug, PartialEq, Eq, Structural)]
pub struct Vec2 {
    pub x: i128,
    pub y: i128,
}

impl View for Vec2 {
    type V = Vector;

    open spec fn view(&self) -> Vector {
        Vector { x: self.x as int, y: self.y as int }
    }
}

impl Vec2 {
    pub fn new(x: i128, y: i128) -> (v: Vec2)
        ensures
            v.x == x,
            v.y == y,
    {
        Vec2 { x, y }
    }

    /// Component-wise sum.
    pub fn plus(&self, other: &Vec2) -> (v: Vec2)
        requires
            i128::MIN <= self.x + other.x <= i128::MAX,
            i128::MIN <= self.y + other.y <= i128::MAX,
        ensures
            v@ == self@.plus(other@),
    {
        Vec2 { x: self.x + other.x, y: self.y + other.y }
    }

    /// Component-wise difference.
    pub fn minus(&self, other: &Vec2) -> (v: Vec2)
        requires
            i128::MIN <= self.x - other.x <= i128::MAX,
            i128::MIN <= self.y - other.y <= i128::MAX,
        ensures
            v@ == self@.minus(other@),
    {
        Vec2 { x: self.x - other.x, y: self.y - other.y }
    }

    /// The opposite vector.
    pub fn negated(&self) -> (v: Vec2)
        requires
            self.x > i128::MIN,
            self.y > i128::MIN,
        ensures
            v@ == self@.negated(),
    {
        Vec2 { x: -self.x, y: -self.y }
    }

    /// The Euclidean length, rounded down.
    pub fn magnitude(&self) -> (m: u128)
        requires
            self@.within(MAGNITUDE_LIMIT as int),
        ensures
            m == self@.magnitude(),
            m < 0x1_0000_0000_0000_0000,
    {
        proof {
            lemma_mul_bounds(
                self.x as int,
                self.x as int,
                MAGNITUDE_LIMIT as int,
                MAGNITUDE_LIMIT as int,
            );
            lemma_mul_bounds(
                self.y as int,
                self.y as int,
                MAGNITUDE_LIMIT as int,
                MAGNITUDE_LIMIT as int,
            );
            assert(self.x * self.x >= 0 && self.y * self.y >= 0) by (nonlinear_arith);
        }
        let square: i128 = self.x * self.x + self.y * self.y;
        isqrt(square as u128)
    }

    /// Whether both components lie in `[-limit, limit]`.
    pub fn within(&self, limit: i128) -> (b: bool)
        requires
            limit >= 0,
        ensures
            b == self@.within(limit as int),
    {
        -limit <= self.x && self.x <= limit && -limit <= self.y && self.y <= limit
    }
}

} // verus!
