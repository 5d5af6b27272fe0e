//! The values that a simulation request and its answer are made of.

use vstd::prelude::*;
use crate::dynamics::simulation::CollisionResult;
use crate::dynamics::state::BoundaryState;
use crate::geometry::table_spec::TableSpec;
use crate::scalar::Scalar;

verus! {

/// A request for a trajectory.
#[derive(Debug)]
pub struct SimulateRequest {
    /// The description of the table.
    pub table: TableSpec,
    /// The state in which the particle sets out.
    pub initial_state: BoundaryStateDto,
    /// The number of collisions after which the trajectory ends.
    pub max_steps: usize,
    /// How far ahead of its origin a ray must hit: nearer hits are the point
    /// that the particle has just left.
    pub epsilon: Scalar,
}

/// A boundary state, as a request names it.
#[derive(Clone, Copy, Debug)]
pub struct BoundaryStateDto {
    pub component_index: usize,
    pub s: Scalar,
    pub theta: Scalar,
}

/// One collision, as an answer lists it.
#[derive(Clone, Copy, Debug)]
pub struct CollisionDto {
    /// The place of the collision in the trajectory, from zero.
    pub step: usize,
    pub component_index: usize,
    pub segment_index: usize,
    pub s: Scalar,
    pub theta: Scalar,
    /// The first coordinate of the point that was hit.
    pub x: Scalar,
    /// The second coordinate of the point that was hit.
    pub y: Scalar,
}

/// The answer to a request: the collisions of the trajectory, in the order in
/// which they happened.
#[derive(Debug)]
pub struct SimulateResponse {
    pub collisions: Vec<CollisionDto>,
}

impl BoundaryStateDto {
    /// The boundary state that the request names.
    pub open spec fn spec_into_core(self) -> BoundaryState {
        BoundaryState { component_index: self.component_index, s: self.s, theta: self.theta }
    }

    /// The boundary state that the request names.
    #[verifier::when_used_as_spec(spec_into_core)]
    pub fn into_core(self) -> (state: BoundaryState)
        ensures
            state == self.spec_into_core(),
    {
        BoundaryState { component_index: self.component_index, s: self.s, theta: self.theta }
    }
}

impl CollisionDto {
    /// The entry for a collision at the given place of a trajectory.
    pub open spec fn spec_from_core(step: usize, collision: &CollisionResult) -> CollisionDto {
        CollisionDto {
            step,
            component_index: collision.component_index,
            segment_index: collision.segment_index,
            s: collision.s,
            theta: collision.theta,
            x: collision.hit_point.x,
            y: collision.hit_point.y,
        }
    }

    /// The entry for a collision at the given place of a trajectory.
    #[verifier::when_used_as_spec(spec_from_core)]
    pub fn from_core(step: usize, collision: &CollisionResult) -> (entry: CollisionDto)
        ensures
            entry == CollisionDto::spec_from_core(step, collision),
    {
        CollisionDto {
            step,
            component_index: collision.component_index,
            segment_index: collision.segment_index,
            s: collision.s,
            theta: collision.theta,
            x: collision.hit_point.x,
            y: collision.hit_point.y,
        }
    }
}

impl SimulateResponse {
    /// Whether the answer lists exactly the given collisions: one entry for
    /// each, in their order, numbered from zero.
    pub open spec fn lists(&self, collisions: Seq<CollisionResult>) -> bool {
        &&& self.collisions.len() == collisions.len()
        &&& forall|i: int|
            0 <= i < collisions.len() ==> (#[trigger] self.collisions[i])
                == CollisionDto::spec_from_core(i as usize, &collisions[i])
    }

    /// The answer that lists the given collisions.
    pub fn from_collisions(collisions: &Vec<CollisionResult>) -> (response: SimulateResponse)
        ensures
            response.lists(collisions@),
    {
        let mut entries: Vec<CollisionDto> = Vec::new();
        let mut step: usize = 0;
        while step < collisions.len()
            invariant
                step <= collisions.len(),
                entries.len() == step,
                forall|i: int|
                    0 <= i < step ==> (#[trigger] entries[i]) == CollisionDto::spec_from_core(
                        i as usize,
                        &collisions[i],
                    ),
            decreases collisions.len() - step,
        {
            entries.push(CollisionDto::from_core(step, &collisions[step]));
            step += 1;
        }
        SimulateResponse { collisions: entries }
    }
}

} // verus!
