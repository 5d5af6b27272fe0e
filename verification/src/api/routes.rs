//! The simulation request: what is checked, what is run, what is answered.

use vstd::prelude::*;
use vstd::string::StringExecFns;
use crate::api::error::ApiError;
use crate::api::types::{SimulateRequest, SimulateResponse};
use crate::dynamics::simulation::{run_trajectory, state_before, CollisionResult};
use crate::dynamics::state::BoundaryState;
use crate::geometry::boundary::{BilliardTable, Measure};
use crate::scalar::Scalar;

verus! {

/// Whether a step limit can be simulated: it is greater than zero.
pub open spec fn acceptable_steps(max_steps: usize) -> bool {
    max_steps > 0
}

/// Whether an epsilon can be simulated with: it is finite and greater than
/// zero.
pub open spec fn acceptable_epsilon(epsilon: Scalar) -> bool {
    epsilon.spec_is_finite() && !epsilon.spec_le(Scalar::spec_zero())
}

/// Checks the numbers of a request before anything is built or run: first
/// the step limit, then epsilon.
pub fn validate_request(max_steps: usize, epsilon: Scalar) -> (checked: Result<(), ApiError>)
    ensures
        !acceptable_steps(max_steps) ==> (checked matches Err(ApiError::BadRequest(message))
            && message@ == "max_steps must be greater than 0"@),
        acceptable_steps(max_steps) && !acceptable_epsilon(epsilon) ==> (checked matches Err(
            ApiError::BadRequest(message),
        ) && message@ == "epsilon must be positive and finite"@),
        acceptable_steps(max_steps) && acceptable_epsilon(epsilon) ==> checked is Ok,
{
    if max_steps == 0 {
        return Err(ApiError::BadRequest(String::from_str("max_steps must be greater than 0")));
    }
    if !epsilon.is_finite() || epsilon.le(Scalar::zero()) {
        return Err(ApiError::BadRequest(String::from_str("epsilon must be positive and finite")));
    }
    Ok(())
}

/// Whether `collisions` is a trajectory on `table`: at most `max_steps`
/// collisions, each of them found by `next_collision` from the state before
/// it, and, where there are fewer than `max_steps`, none found after the last.
pub open spec fn is_trajectory<F: Fn(&BilliardTable, &BoundaryState, Scalar) -> Option<CollisionResult>>(
    next_collision: F,
    table: BilliardTable,
    epsilon: Scalar,
    initial: BoundaryState,
    max_steps: usize,
    collisions: Seq<CollisionResult>,
) -> bool {
    &&& collisions.len() <= max_steps
    &&& forall|i: int|
        0 <= i < collisions.len() ==> call_ensures(
            next_collision,
            (&table, &state_before(initial, collisions, i), epsilon),
            Some(#[trigger] collisions[i]),
        )
    &&& collisions.len() < max_steps ==> call_ensures(
        next_collision,
        (&table, &state_before(initial, collisions, collisions.len() as int), epsilon),
        None::<CollisionResult>,
    )
}

/// Answers a request for a trajectory.
///
/// The request names the table by its description; `outer` and `obstacles`
/// are the measures of its components, and `next_collision` finds the next
/// collision on a table from a boundary state. First the numbers of the
/// request are checked, and a request that fails is a bad request. Then the
/// table is built; a description that cannot become a table is an internal
/// error, with the sentence of the construction error. Then the trajectory is
/// run from the initial state of the request, and its collisions are listed.
pub fn simulate<F>(
    request: &SimulateRequest,
    outer: &Measure,
    obstacles: &Vec<Measure>,
    next_collision: F,
) -> (answer: Result<SimulateResponse, ApiError>) where
    F: Fn(&BilliardTable, &BoundaryState, Scalar) -> Option<CollisionResult>,

    requires
        forall|table: &BilliardTable, state: &BoundaryState, bound: Scalar|
            call_requires(next_collision, (table, state, bound)),
    ensures
        !acceptable_steps(request.max_steps) ==> (answer matches Err(
            ApiError::BadRequest(message),
        ) && message@ == "max_steps must be greater than 0"@),
        acceptable_steps(request.max_steps) && !acceptable_epsilon(request.epsilon) ==> (
        answer matches Err(ApiError::BadRequest(message)) && message@
            == "epsilon must be positive and finite"@),
        acceptable_steps(request.max_steps) && acceptable_epsilon(request.epsilon) ==> (
        match request.table.build_error(*outer, obstacles@) {
            Some(error) => answer matches Err(ApiError::Internal(message)) && message@
                == error.spec_message(),
            None => answer matches Ok(response) && exists|
                table: BilliardTable,
                collisions: Seq<CollisionResult>,
            |
                {
                    &&& request.table.describes(*outer, obstacles@, table)
                    &&& #[trigger] is_trajectory(
                        next_collision,
                        table,
                        request.epsilon,
                        request.initial_state.spec_into_core(),
                        request.max_steps,
                        collisions,
                    )
                    &&& response.lists(collisions)
                },
        }),
{
    match validate_request(request.max_steps, request.epsilon) {
        Ok(()) => {},
        Err(error) => {
            return Err(error);
        },
    }
    let table = match request.table.to_billiard_table(outer, obstacles) {
        Ok(table) => table,
        Err(error) => {
            return Err(ApiError::Internal(error.message()));
        },
    };
    let initial = request.initial_state.into_core();
    let epsilon = request.epsilon;
    let kernel = &next_collision;
    let step = |state: &BoundaryState| -> (found: Option<CollisionResult>)
        ensures
            call_ensures(*kernel, (&table, state, epsilon), found),
        { kernel(&table, state, epsilon) };
    let collisions = run_trajectory(&initial, request.max_steps, step);
    let response = SimulateResponse::from_collisions(&collisions);
    proof {
        assert(is_trajectory(
            next_collision,
            table,
            epsilon,
            initial,
            request.max_steps,
            collisions@,
        ));
    }
    Ok(response)
}

} // verus!
