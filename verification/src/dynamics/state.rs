//! Collision states on the boundary.

use vstd::prelude::*;
use crate::geometry::primitives::Vec2;
use crate::scalar::Scalar;

verus! {

/// The state of the particle as it leaves the boundary after a collision:
/// which component it is on, where along that component, and in which
/// direction it leaves.
#[derive(Clone, Copy, Debug)]
pub struct BoundaryState {
    /// The index of the component: 0 is the outer boundary.
    pub component_index: usize,
    /// The arc length along the component. Any value is taken modulo the
    /// length of the component.
    pub s: Scalar,
    /// The angle from the tangent to the direction of travel, in radians:
    /// zero is along the tangent, and a growing angle turns to the inside.
    pub theta: Scalar,
}

/// The state of the particle in the plane: where it is and where it is
/// heading. It is derived from a boundary state and a table whenever it is
/// needed, and never kept.
#[derive(Clone, Copy, Debug)]
pub struct WorldState {
    pub position: Vec2,
    /// The direction of travel. It need not have length one.
    pub direction: Vec2,
}

} // verus!
