//! Two-dimensional vectors.

use vstd::prelude::*;
use crate::scalar::Scalar;

verus! {

/// The bit pattern of the square of the shortest length that still has a
/// direction: the binary64 product of 1e-10 with itself.
pub const LENGTH_LOWER_BOUND_SQUARED_BITS: u64 = 0x3bc7_9ca1_0c92_4224;

/// A vector, or a point, of the plane.
#[derive(Clone, Copy, Debug)]
pub struct Vec2 {
    pub x: Scalar,
    pub y: Scalar,
}

impl Vec2 {
    /// The vector with the given components.
    pub fn new(x: Scalar, y: Scalar) -> (v: Vec2)
        ensures
            v == (Vec2 { x, y }),
    {
        Vec2 { x, y }
    }

    /// The vector turned by a quarter turn counterclockwise: `(x, y)` becomes
    /// `(-y, x)`.
    pub open spec fn spec_perp(self) -> Vec2 {
        Vec2 { x: self.y.spec_neg(), y: self.x }
    }

    /// The vector turned by a quarter turn counterclockwise. Along a boundary
    /// that runs counterclockwise this turns the tangent to the inside.
    #[verifier::when_used_as_spec(spec_perp)]
    pub fn perp(self) -> (v: Vec2)
        ensures
            v == self.spec_perp(),
    {
        Vec2 { x: self.y.neg(), y: self.x }
    }
}

/// Whether a vector of this squared length is too short to be normalized.
pub open spec fn spec_is_degenerate_length(length_squared: Scalar) -> bool {
    length_squared.spec_lt(Scalar::spec_from_bits(LENGTH_LOWER_BOUND_SQUARED_BITS))
}

/// Whether a vector of this squared length is too short to be normalized.
/// Such a vector has no direction: a ray along it hits nothing.
#[verifier::when_used_as_spec(spec_is_degenerate_length)]
pub fn is_degenerate_length(length_squared: Scalar) -> (degenerate: bool)
    ensures
        degenerate == spec_is_degenerate_length(length_squared),
{
    length_squared.lt(Scalar::from_bits(LENGTH_LOWER_BOUND_SQUARED_BITS))
}

} // verus!
