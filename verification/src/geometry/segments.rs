//! The two kinds of boundary segment.

use vstd::prelude::*;
use crate::geometry::error::ConstructionError;
use crate::geometry::primitives::Vec2;
use crate::scalar::Scalar;

verus! {

/// A straight segment. Arc length grows from `start` to `end`.
#[derive(Clone, Copy, Debug)]
pub struct LineSegment {
    pub start: Vec2,
    pub end: Vec2,
}

impl LineSegment {
    /// The segment from `start` to `end`.
    pub fn new(start: Vec2, end: Vec2) -> (segment: LineSegment)
        ensures
            segment == (LineSegment { start, end }),
    {
        LineSegment { start, end }
    }
}

/// An arc of a circle between two angles, in radians. Arc length grows from
/// `start_angle` to `end_angle`, counterclockwise if `ccw` is set and
/// clockwise if not.
#[derive(Clone, Copy, Debug)]
pub struct CircularArcSegment {
    pub center: Vec2,
    pub radius: Scalar,
    pub start_angle: Scalar,
    pub end_angle: Scalar,
    pub ccw: bool,
}

impl CircularArcSegment {
    /// The arc with the given circle, angles and sense, if the radius is
    /// greater than zero.
    pub fn new(
        center: Vec2,
        radius: Scalar,
        start_angle: Scalar,
        end_angle: Scalar,
        ccw: bool,
    ) -> (made: Result<CircularArcSegment, ConstructionError>)
        ensures
            radius.spec_gt(Scalar::spec_zero()) ==> made == Ok::<CircularArcSegment, ConstructionError>(
                CircularArcSegment { center, radius, start_angle, end_angle, ccw },
            ),
            !radius.spec_gt(Scalar::spec_zero()) ==> made == Err::<CircularArcSegment, ConstructionError>(
                ConstructionError::NonPositiveRadius,
            ),
    {
        if radius.gt(Scalar::zero()) {
            Ok(CircularArcSegment { center, radius, start_angle, end_angle, ccw })
        } else {
            Err(ConstructionError::NonPositiveRadius)
        }
    }
}

/// A segment of a boundary, of either kind.
#[derive(Clone, Copy, Debug)]
pub enum BoundarySegment {
    Line(LineSegment),
    CircularArc(CircularArcSegment),
}

} // verus!
