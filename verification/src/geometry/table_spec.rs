//! Descriptions of tables, as they arrive from outside.
//!
//! A description holds the plain data of a table. It becomes a table once its
//! arcs are checked and its segments are measured; the measuring is binary64
//! arithmetic and is done by the caller.

use vstd::prelude::*;
use crate::geometry::boundary::{measure_error, BilliardTable, BoundaryComponent, Measure};
use crate::geometry::error::ConstructionError;
use crate::geometry::primitives::Vec2;
use crate::geometry::segments::{BoundarySegment, CircularArcSegment, LineSegment};
use crate::scalar::Scalar;

verus! {

/// The description of one segment.
#[derive(Clone, Copy, Debug)]
pub enum SegmentSpec {
    /// A straight segment between two points.
    Line { start: Vec2, end: Vec2 },
    /// An arc of the circle around `center`, from `start_angle` to
    /// `end_angle` in radians, counterclockwise if `ccw` is set.
    CircularArc { center: Vec2, radius: Scalar, start_angle: Scalar, end_angle: Scalar, ccw: bool },
}

/// The description of one closed boundary.
#[derive(Debug)]
pub struct BoundarySpec {
    pub name: String,
    pub segments: Vec<SegmentSpec>,
}

/// The description of a table.
#[derive(Debug)]
pub struct TableSpec {
    /// The outer boundary.
    pub outer: BoundarySpec,
    /// The obstacles inside it.
    pub obstacles: Vec<BoundarySpec>,
}

impl SegmentSpec {
    /// Whether the description can become a segment: a line always, an arc if
    /// its radius is greater than zero.
    pub open spec fn is_buildable(self) -> bool {
        match self {
            SegmentSpec::Line { .. } => true,
            SegmentSpec::CircularArc { radius, .. } => radius.spec_gt(Scalar::spec_zero()),
        }
    }

    /// The segment that the description stands for.
    pub open spec fn segment(self) -> BoundarySegment {
        match self {
            SegmentSpec::Line { start, end } => BoundarySegment::Line(LineSegment { start, end }),
            SegmentSpec::CircularArc {
                center,
                radius,
                start_angle,
                end_angle,
                ccw,
            } => BoundarySegment::CircularArc(
                CircularArcSegment { center, radius, start_angle, end_angle, ccw },
            ),
        }
    }

    /// The segment that the description stands for, if it can become one.
    pub fn to_segment(&self) -> (made: Result<BoundarySegment, ConstructionError>)
        ensures
            self.is_buildable() ==> made == Ok::<BoundarySegment, ConstructionError>(
                self.segment(),
            ),
            !self.is_buildable() ==> made == Err::<BoundarySegment, ConstructionError>(
                ConstructionError::NonPositiveRadius,
            ),
    {
        match self {
            SegmentSpec::Line { start, end } => Ok(
                BoundarySegment::Line(LineSegment::new(*start, *end)),
            ),
            SegmentSpec::CircularArc { center, radius, start_angle, end_angle, ccw } => {
                match CircularArcSegment::new(*center, *radius, *start_angle, *end_angle, *ccw) {
                    Ok(arc) => Ok(BoundarySegment::CircularArc(arc)),
                    Err(error) => Err(error),
                }
            },
        }
    }
}

impl BoundarySpec {
    /// Whether every segment of the description can become a segment.
    pub open spec fn all_buildable(&self) -> bool {
        forall|i: int| 0 <= i < self.segments.len() ==> (#[trigger] self.segments[i]).is_buildable()
    }

    /// The segments that the description stands for, in its order.
    pub open spec fn segments_built(&self) -> Seq<BoundarySegment> {
        Seq::new(self.segments.len() as nat, |i: int| self.segments[i].segment())
    }

    /// Why the description cannot become a component with the given measure,
    /// or `None` if it can. The arcs are checked first, then the measure.
    pub open spec fn build_error(&self, measure: Measure) -> Option<ConstructionError> {
        if !self.all_buildable() {
            Some(ConstructionError::NonPositiveRadius)
        } else {
            measure_error(self.segments.len() as nat, measure.lengths@, measure.cumulative@)
        }
    }

    /// The segments that the description stands for, segment by segment, if
    /// every one of them can become a segment.
    pub fn to_segments(&self) -> (made: Result<Vec<BoundarySegment>, ConstructionError>)
        ensures
            self.all_buildable() ==> (made matches Ok(segments) && segments@
                == self.segments_built()),
            !self.all_buildable() ==> made == Err::<Vec<BoundarySegment>, ConstructionError>(
                ConstructionError::NonPositiveRadius,
            ),
    {
        let mut segments: Vec<BoundarySegment> = Vec::new();
        let mut i: usize = 0;
        while i < self.segments.len()
            invariant
                i <= self.segments.len(),
                segments@ == self.segments_built().take(i as int),
                forall|k: int| 0 <= k < i ==> (#[trigger] self.segments[k]).is_buildable(),
            decreases self.segments.len() - i,
        {
            match self.segments[i].to_segment() {
                Ok(segment) => {
                    segments.push(segment);
                    proof {
                        assert(self.segments_built().take(i as int + 1)
                            == self.segments_built().take(i as int).push(segment));
                    }
                },
                Err(error) => {
                    return Err(error);
                },
            }
            i += 1;
        }
        proof {
            assert(self.segments_built().take(self.segments.len() as int)
                == self.segments_built());
        }
        Ok(segments)
    }

    /// Whether `component` is the component that the description stands for,
    /// with the given measure.
    pub open spec fn describes(&self, measure: Measure, component: BoundaryComponent) -> bool {
        &&& component.well_formed()
        &&& component.name_view() == self.name@
        &&& component.segments_view() == self.segments_built()
        &&& component.cumulative() == measure.cumulative@
    }

    /// The component that the description stands for, with the measure of its
    /// segments, if the description and the measure allow it.
    pub fn to_boundary_component(&self, measure: &Measure) -> (made: Result<
        BoundaryComponent,
        ConstructionError,
    >)
        ensures
            match self.build_error(*measure) {
                Some(error) => made == Err::<BoundaryComponent, ConstructionError>(error),
                None => made matches Ok(component) && self.describes(*measure, component),
            },
    {
        match self.to_segments() {
            Ok(segments) => BoundaryComponent::new(self.name.clone(), segments, measure),
            Err(error) => Err(error),
        }
    }
}

impl TableSpec {
    /// `index` is the first obstacle that cannot become a component with its
    /// measure.
    pub open spec fn first_failing_obstacle(&self, measures: Seq<Measure>, index: int) -> bool {
        &&& 0 <= index < self.obstacles.len()
        &&& self.obstacles[index].build_error(measures[index]) is Some
        &&& forall|j: int|
            0 <= j < index ==> (#[trigger] self.obstacles[j]).build_error(measures[j]) is None
    }

    /// Why the description cannot become a table with the given measures, or
    /// `None` if it can. There must be one measure for each obstacle; then the
    /// outer boundary is built, then the obstacles in their order, and the
    /// first failure is the one reported.
    pub open spec fn build_error(&self, outer: Measure, measures: Seq<Measure>) -> Option<
        ConstructionError,
    > {
        if measures.len() != self.obstacles.len() {
            Some(ConstructionError::InconsistentLengths)
        } else if self.outer.build_error(outer) is Some {
            self.outer.build_error(outer)
        } else if exists|i: int| self.first_failing_obstacle(measures, i) {
            let first = choose|i: int| self.first_failing_obstacle(measures, i);
            self.obstacles[first].build_error(measures[first])
        } else {
            None
        }
    }

    /// Whether `table` is the table that the description stands for, with the
    /// given measures: component for component.
    pub open spec fn describes(
        &self,
        outer: Measure,
        measures: Seq<Measure>,
        table: BilliardTable,
    ) -> bool {
        &&& self.outer.describes(outer, table.outer)
        &&& table.obstacles.len() == self.obstacles.len()
        &&& forall|i: int|
            0 <= i < self.obstacles.len() ==> (#[trigger] self.obstacles[i]).describes(
                measures[i],
                table.obstacles[i],
            )
    }

    /// The table that the description stands for: its outer boundary with the
    /// measure `outer`, and obstacle `i` with the measure `obstacles[i]`.
    pub fn to_billiard_table(&self, outer: &Measure, obstacles: &Vec<Measure>) -> (made: Result<
        BilliardTable,
        ConstructionError,
    >)
        ensures
            match self.build_error(*outer, obstacles@) {
                Some(error) => made == Err::<BilliardTable, ConstructionError>(error),
                None => made matches Ok(table) && self.describes(*outer, obstacles@, table),
            },
    {
        if obstacles.len() != self.obstacles.len() {
            return Err(ConstructionError::InconsistentLengths);
        }
        let outer_component = match self.outer.to_boundary_component(outer) {
            Ok(component) => component,
            Err(error) => {
                return Err(error);
            },
        };
        let mut components: Vec<BoundaryComponent> = Vec::new();
        let mut i: usize = 0;
        while i < self.obstacles.len()
            invariant
                i <= self.obstacles.len(),
                obstacles.len() == self.obstacles.len(),
                self.outer.build_error(*outer) is None,
                components.len() == i,
                forall|j: int|
                    0 <= j < i ==> (#[trigger] self.obstacles[j]).build_error(obstacles[j]) is None,
                forall|j: int|
                    0 <= j < i ==> (#[trigger] self.obstacles[j]).describes(
                        obstacles[j],
                        components[j],
                    ),
            decreases self.obstacles.len() - i,
        {
            match self.obstacles[i].to_boundary_component(&obstacles[i]) {
                Ok(component) => {
                    components.push(component);
                },
                Err(error) => {
                    proof {
                        assert(self.first_failing_obstacle(obstacles@, i as int));
                        let first = choose|k: int| self.first_failing_obstacle(obstacles@, k);
                        if first < i {
                            assert(self.obstacles[first].build_error(obstacles[first]) is None);
                        } else if first > i {
                            assert(self.obstacles[i as int].build_error(obstacles[i as int])
                                is None);
                        }
                    }
                    return Err(error);
                },
            }
            i += 1;
        }
        proof {
            if exists|k: int| self.first_failing_obstacle(obstacles@, k) {
                let first = choose|k: int| self.first_failing_obstacle(obstacles@, k);
                assert(self.obstacles[first].build_error(obstacles[first]) is None);
            }
        }
        Ok(BilliardTable { outer: outer_component, obstacles: components })
    }
}

} // verus!
