use billiard_core::api::error::ApiError;
use billiard_core::api::routes::{simulate, validate_request};
use billiard_core::api::types::{
    BoundaryStateDto, CollisionDto, SimulateRequest, SimulateResponse,
};
use billiard_core::dynamics::simulation::CollisionResult;
use billiard_core::dynamics::state::BoundaryState;
use billiard_core::geometry::boundary::{BilliardTable, Measure};
use billiard_core::geometry::primitives::Vec2;
use billiard_core::geometry::table_spec::{BoundarySpec, SegmentSpec, TableSpec};
use billiard_core::scalar::Scalar;

fn scalar(value: f64) -> Scalar {
    Scalar::from_bits(value.to_bits())
}

fn num(value: Scalar) -> f64 {
    f64::from_bits(value.to_bits())
}

fn point(x: f64, y: f64) -> Vec2 {
    Vec2::new(scalar(x), scalar(y))
}

fn square_spec() -> BoundarySpec {
    BoundarySpec {
        name: "outer".to_string(),
        segments: vec![
            SegmentSpec::Line { start: point(0.0, 0.0), end: point(1.0, 0.0) },
            SegmentSpec::Line { start: point(1.0, 0.0), end: point(1.0, 1.0) },
            SegmentSpec::Line { start: point(1.0, 1.0), end: point(0.0, 1.0) },
            SegmentSpec::Line { start: point(0.0, 1.0), end: point(0.0, 0.0) },
        ],
    }
}

fn square_measure() -> Measure {
    Measure {
        lengths: vec![scalar(1.0); 4],
        cumulative: vec![scalar(1.0), scalar(2.0), scalar(3.0), scalar(4.0)],
    }
}

fn request(max_steps: usize, epsilon: f64) -> SimulateRequest {
    SimulateRequest {
        table: TableSpec { outer: square_spec(), obstacles: Vec::new() },
        initial_state: BoundaryStateDto {
            component_index: 0,
            s: scalar(0.5),
            theta: scalar(1.25),
        },
        max_steps,
        epsilon: scalar(epsilon),
    }
}

/// A step that stands in for the engine: it moves on by one unit of arc
/// length along the boundary that it is handed, and notes epsilon as angle.
fn stub(table: &BilliardTable, from: &BoundaryState, epsilon: Scalar) -> Option<CollisionResult> {
    let s = num(from.s) + 1.0;
    if s >= num(table.outer.length()) {
        return None;
    }
    let segment_index = table.outer.locate(scalar(s));
    Some(CollisionResult::new(from.component_index, segment_index, scalar(s), epsilon, point(s, 2.0 * s)))
}

fn bad_request(answer: Result<SimulateResponse, ApiError>) -> String {
    match answer {
        Err(ApiError::BadRequest(message)) => message,
        other => panic!("a bad request was expected, not {:?}", other),
    }
}

#[test]
fn errors_map_to_status_and_code() {
    let bad = ApiError::BadRequest("no".to_string());
    assert_eq!(bad.status_code(), 400);
    assert_eq!(bad.error_code(), "bad_request");
    assert_eq!(bad.message(), "no");
    let failed = ApiError::SimulationFailed("stuck".to_string());
    assert_eq!(failed.status_code(), 422);
    assert_eq!(failed.error_code(), "simulation_failed");
    assert_eq!(failed.message(), "stuck");
    let internal = ApiError::Internal("boom".to_string());
    assert_eq!(internal.status_code(), 500);
    assert_eq!(internal.error_code(), "internal_error");
    assert_eq!(internal.message(), "boom");
}

#[test]
fn errors_describe_themselves_in_one_line() {
    assert_eq!(ApiError::BadRequest("no".to_string()).describe(), "bad request: no");
    assert_eq!(
        ApiError::SimulationFailed("stuck".to_string()).describe(),
        "simulation failed: stuck"
    );
    // An internal error keeps its explanation to itself.
    assert_eq!(ApiError::Internal("boom".to_string()).describe(), "internal server error");
}

#[test]
fn request_needs_at_least_one_step() {
    match validate_request(0, scalar(1e-8)) {
        Err(ApiError::BadRequest(message)) => {
            assert_eq!(message, "max_steps must be greater than 0")
        }
        other => panic!("a bad request was expected, not {:?}", other),
    }
    // The step limit is checked before epsilon.
    match validate_request(0, scalar(-1.0)) {
        Err(ApiError::BadRequest(message)) => {
            assert_eq!(message, "max_steps must be greater than 0")
        }
        other => panic!("a bad request was expected, not {:?}", other),
    }
    assert!(validate_request(1, scalar(1e-8)).is_ok());
    assert!(validate_request(usize::MAX, scalar(1e-8)).is_ok());
}

#[test]
fn request_needs_a_positive_and_finite_epsilon() {
    for &epsilon in &[0.0, -0.0, -1e-8, f64::INFINITY, f64::NEG_INFINITY, f64::NAN] {
        match validate_request(5, scalar(epsilon)) {
            Err(ApiError::BadRequest(message)) => {
                assert_eq!(message, "epsilon must be positive and finite", "epsilon {}", epsilon)
            }
            other => panic!("epsilon {}: a bad request was expected, not {:?}", epsilon, other),
        }
    }
    for &epsilon in &[5e-324, 1e-8, 1.0, f64::MAX] {
        assert!(validate_request(5, scalar(epsilon)).is_ok(), "epsilon {}", epsilon);
    }
}

#[test]
fn state_of_a_request_becomes_a_boundary_state() {
    let state = BoundaryStateDto { component_index: 2, s: scalar(0.75), theta: scalar(-0.5) }
        .into_core();
    assert_eq!(state.component_index, 2);
    assert_eq!(num(state.s), 0.75);
    assert_eq!(num(state.theta), -0.5);
}

#[test]
fn collision_becomes_an_entry_with_its_step() {
    let collision =
        CollisionResult::new(1, 3, scalar(2.5), scalar(0.25), point(0.125, -4.0));
    let entry = CollisionDto::from_core(7, &collision);
    assert_eq!(entry.step, 7);
    assert_eq!(entry.component_index, 1);
    assert_eq!(entry.segment_index, 3);
    assert_eq!(num(entry.s), 2.5);
    assert_eq!(num(entry.theta), 0.25);
    assert_eq!(num(entry.x), 0.125);
    assert_eq!(num(entry.y), -4.0);
}

#[test]
fn answer_lists_the_collisions_in_order_from_step_zero() {
    let collisions = vec![
        CollisionResult::new(0, 2, scalar(2.5), scalar(1.0), point(0.5, 1.0)),
        CollisionResult::new(0, 0, scalar(0.5), scalar(1.0), point(0.5, 0.0)),
        CollisionResult::new(1, 0, scalar(0.1), scalar(-1.0), point(0.4, 0.6)),
    ];
    let response = SimulateResponse::from_collisions(&collisions);
    assert_eq!(response.collisions.len(), 3);
    for (i, entry) in response.collisions.iter().enumerate() {
        assert_eq!(entry.step, i);
        assert_eq!(entry.component_index, collisions[i].component_index);
        assert_eq!(entry.segment_index, collisions[i].segment_index);
        assert_eq!(entry.s.to_bits(), collisions[i].s.to_bits());
        assert_eq!(entry.x.to_bits(), collisions[i].hit_point.x.to_bits());
        assert_eq!(entry.y.to_bits(), collisions[i].hit_point.y.to_bits());
    }
    assert!(SimulateResponse::from_collisions(&Vec::new()).collisions.is_empty());
}

#[test]
fn simulate_turns_down_bad_numbers_before_it_builds_anything() {
    let never = |_: &BilliardTable, _: &BoundaryState, _: Scalar| -> Option<CollisionResult> {
        panic!("nothing is to be run")
    };
    // The measure is no measure of the table: it is never looked at.
    let nothing = Measure { lengths: Vec::new(), cumulative: Vec::new() };
    let message = bad_request(simulate(&request(0, 1e-8), &nothing, &Vec::new(), never));
    assert_eq!(message, "max_steps must be greater than 0");
    let message = bad_request(simulate(&request(3, 0.0), &nothing, &Vec::new(), never));
    assert_eq!(message, "epsilon must be positive and finite");
    let message = bad_request(simulate(&request(3, f64::NAN), &nothing, &Vec::new(), never));
    assert_eq!(message, "epsilon must be positive and finite");
}

#[test]
fn simulate_reports_a_table_that_cannot_be_built_as_internal_error() {
    let mut flat = request(3, 1e-8);
    flat.table.outer.segments.clear();
    let nothing = Measure { lengths: Vec::new(), cumulative: Vec::new() };
    match simulate(&flat, &nothing, &Vec::new(), stub) {
        Err(ApiError::Internal(message)) => {
            assert_eq!(message, "BoundaryComponent must have at least one segment")
        }
        other => panic!("an internal error was expected, not {:?}", other),
    }
    let mut round = request(3, 1e-8);
    round.table.outer.segments[1] = SegmentSpec::CircularArc {
        center: point(0.0, 0.0),
        radius: scalar(-1.0),
        start_angle: scalar(0.0),
        end_angle: scalar(1.0),
        ccw: true,
    };
    match simulate(&round, &square_measure(), &Vec::new(), stub) {
        Err(ApiError::Internal(message)) => assert_eq!(message, "Radius must be positive."),
        other => panic!("an internal error was expected, not {:?}", other),
    }
}

#[test]
fn simulate_runs_from_the_initial_state_and_lists_what_was_found() {
    let answer = simulate(&request(2, 0.25), &square_measure(), &Vec::new(), stub)
        .expect("the request is fine");
    assert_eq!(answer.collisions.len(), 2);
    let first = answer.collisions[0];
    assert_eq!(first.step, 0);
    assert_eq!(first.segment_index, 1);
    assert_eq!(num(first.s), 1.5);
    // Epsilon reaches the step as it was asked for.
    assert_eq!(num(first.theta), 0.25);
    assert_eq!((num(first.x), num(first.y)), (1.5, 3.0));
    let second = answer.collisions[1];
    assert_eq!(second.step, 1);
    assert_eq!(second.segment_index, 2);
    assert_eq!(num(second.s), 2.5);
}

#[test]
fn simulate_stops_when_the_particle_escapes() {
    let answer = simulate(&request(10, 0.25), &square_measure(), &Vec::new(), stub)
        .expect("the request is fine");
    // From 0.5 the stub reaches 1.5, 2.5 and 3.5, and then leaves the table.
    assert_eq!(answer.collisions.len(), 3);
    assert_eq!(num(answer.collisions[2].s), 3.5);
    assert_eq!(answer.collisions[2].step, 2);
}
