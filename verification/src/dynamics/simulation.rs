//! Trajectories: the sequence of collisions of one particle.
//!
//! Finding the next collision from a boundary state is arithmetic on binary64
//! numbers and is done by the caller. A [`Trajectory`] tells the caller from
//! which state to look next, takes what was found, and stops after the number
//! of collisions asked for or when the particle hits nothing.

use vstd::prelude::*;
use crate::dynamics::state::BoundaryState;
use crate::geometry::primitives::Vec2;
use crate::scalar::Scalar;

verus! {

/// One collision of the particle with the boundary.
#[derive(Clone, Copy, Debug)]
pub struct CollisionResult {
    /// The index of the component that was hit: 0 is the outer boundary.
    pub component_index: usize,
    /// The index of the segment within the component.
    pub segment_index: usize,
    /// The arc length of the hit along the component.
    pub s: Scalar,
    /// The angle at which the particle leaves, after reflection.
    pub theta: Scalar,
    /// The point of the plane at which the particle hit.
    pub hit_point: Vec2,
}

impl CollisionResult {
    /// The collision with the given parts.
    pub fn new(
        component_index: usize,
        segment_index: usize,
        s: Scalar,
        theta: Scalar,
        hit_point: Vec2,
    ) -> (collision: CollisionResult)
        ensures
            collision == (CollisionResult { component_index, segment_index, s, theta, hit_point }),
    {
        CollisionResult { component_index, segment_index, s, theta, hit_point }
    }

    /// The state in which the collision leaves the particle.
    pub open spec fn spec_next_state(self) -> BoundaryState {
        BoundaryState { component_index: self.component_index, s: self.s, theta: self.theta }
    }

    /// The state in which the collision leaves the particle: on the component
    /// that was hit, at the arc length of the hit, at the angle of reflection.
    #[verifier::when_used_as_spec(spec_next_state)]
    pub fn next_state(self) -> (state: BoundaryState)
        ensures
            state == self.spec_next_state(),
    {
        BoundaryState { component_index: self.component_index, s: self.s, theta: self.theta }
    }
}

/// A trajectory in the making.
#[derive(Debug)]
pub struct Trajectory {
    initial: BoundaryState,
    max_steps: usize,
    collisions: Vec<CollisionResult>,
    escaped: bool,
}

impl Trajectory {
    /// The state in which the particle set out.
    pub closed spec fn initial_state(&self) -> BoundaryState {
        self.initial
    }

    /// The number of collisions after which the trajectory ends.
    pub closed spec fn step_limit(&self) -> nat {
        self.max_steps as nat
    }

    /// The collisions so far, in the order in which they happened.
    pub closed spec fn collisions_view(&self) -> Seq<CollisionResult> {
        self.collisions@
    }

    /// Whether the particle was found to hit nothing.
    pub closed spec fn has_escaped(&self) -> bool {
        self.escaped
    }

    /// What holds of every trajectory: it has no more collisions than its
    /// limit allows.
    pub open spec fn well_formed(&self) -> bool {
        self.collisions_view().len() <= self.step_limit()
    }

    #[verifier::type_invariant]
    spec fn holds(&self) -> bool {
        self.well_formed()
    }

    /// The state of the particle now: the state in which it set out, or the
    /// one in which its last collision left it.
    pub open spec fn current_state(&self) -> BoundaryState {
        if self.collisions_view().len() == 0 {
            self.initial_state()
        } else {
            self.collisions_view().last().spec_next_state()
        }
    }

    /// Whether the trajectory has ended: the particle has escaped, or the
    /// limit is reached.
    pub open spec fn is_finished(&self) -> bool {
        self.has_escaped() || self.collisions_view().len() == self.step_limit()
    }

    /// The state from which the next collision is to be found, if the
    /// trajectory has not ended.
    pub open spec fn spec_pending(&self) -> Option<BoundaryState> {
        if self.is_finished() {
            None
        } else {
            Some(self.current_state())
        }
    }

    /// A trajectory that sets out from `initial` and ends after `max_steps`
    /// collisions at the latest.
    pub fn start(initial: &BoundaryState, max_steps: usize) -> (trajectory: Trajectory)
        ensures
            trajectory.well_formed(),
            trajectory.initial_state() == *initial,
            trajectory.step_limit() == max_steps,
            trajectory.collisions_view() == Seq::<CollisionResult>::empty(),
            !trajectory.has_escaped(),
    {
        Trajectory { initial: *initial, max_steps, collisions: Vec::new(), escaped: false }
    }

    /// The state from which the next collision is to be found, or `None` once
    /// the trajectory has ended.
    #[verifier::when_used_as_spec(spec_pending)]
    pub fn pending(&self) -> (state: Option<BoundaryState>)
        ensures
            state == self.spec_pending(),
    {
        proof {
            use_type_invariant(self);
        }
        let count: usize = self.collisions.len();
        if self.escaped || count == self.max_steps {
            None
        } else if count == 0 {
            Some(self.initial)
        } else {
            Some(self.collisions[count - 1].next_state())
        }
    }

    /// Takes what was found from the pending state: the next collision, or
    /// `None` if the particle hits nothing, which ends the trajectory. Once
    /// the trajectory has ended, nothing is taken any more.
    pub fn record(self, outcome: Option<CollisionResult>) -> (next: Trajectory)
        ensures
            next.well_formed(),
            next.initial_state() == self.initial_state(),
            next.step_limit() == self.step_limit(),
            self.is_finished() ==> {
                &&& next.collisions_view() == self.collisions_view()
                &&& next.has_escaped() == self.has_escaped()
            },
            !self.is_finished() ==> match outcome {
                Some(collision) => {
                    &&& next.collisions_view() == self.collisions_view().push(collision)
                    &&& !next.has_escaped()
                    &&& next.current_state() == collision.spec_next_state()
                },
                None => {
                    &&& next.collisions_view() == self.collisions_view()
                    &&& next.has_escaped()
                },
            },
    {
        proof {
            use_type_invariant(&self);
        }
        let Trajectory { initial, max_steps, mut collisions, escaped } = self;
        if escaped || collisions.len() == max_steps {
            return Trajectory { initial, max_steps, collisions, escaped };
        }
        match outcome {
            Some(collision) => {
                collisions.push(collision);
                Trajectory { initial, max_steps, collisions, escaped }
            },
            None => Trajectory { initial, max_steps, collisions, escaped: true },
        }
    }

    /// The collisions so far, in the order in which they happened.
    pub fn collisions(&self) -> (collisions: &Vec<CollisionResult>)
        ensures
            collisions@ == self.collisions_view(),
            collisions.len() <= self.step_limit(),
    {
        proof {
            use_type_invariant(self);
        }
        &self.collisions
    }

    /// Ends the trajectory and hands out its collisions.
    pub fn into_collisions(self) -> (collisions: Vec<CollisionResult>)
        ensures
            collisions@ == self.collisions_view(),
            collisions.len() <= self.step_limit(),
    {
        proof {
            use_type_invariant(&self);
        }
        self.collisions
    }
}

/// The state from which collision `index` of a trajectory is found: the
/// initial state for the first collision, and for every other the state in
/// which the collision before it left the particle.
pub open spec fn state_before(
    initial: BoundaryState,
    collisions: Seq<CollisionResult>,
    index: int,
) -> BoundaryState {
    if index == 0 {
        initial
    } else {
        collisions[index - 1].spec_next_state()
    }
}

/// Runs a trajectory: from the initial state, finds the next collision with
/// `next_collision` again and again, each time from the state in which the
/// last collision left the particle.
///
/// The trajectory ends after `max_steps` collisions, or earlier when
/// `next_collision` finds none. So every collision handed out is one that
/// `next_collision` found from the state before it, and where fewer than
/// `max_steps` are handed out, `next_collision` found none after the last.
pub fn run_trajectory<F>(initial: &BoundaryState, max_steps: usize, next_collision: F) -> (collisions:
    Vec<CollisionResult>) where F: Fn(&BoundaryState) -> Option<CollisionResult>
    requires
        forall|state: &BoundaryState| call_requires(next_collision, (state,)),
    ensures
        collisions.len() <= max_steps,
        forall|i: int|
            0 <= i < collisions.len() ==> call_ensures(
                next_collision,
                (&state_before(*initial, collisions@, i),),
                Some(#[trigger] collisions[i]),
            ),
        collisions.len() < max_steps ==> call_ensures(
            next_collision,
            (&state_before(*initial, collisions@, collisions.len() as int),),
            None::<CollisionResult>,
        ),
{
    let mut trajectory = Trajectory::start(initial, max_steps);
    loop
        invariant
            forall|state: &BoundaryState| call_requires(next_collision, (state,)),
            trajectory.well_formed(),
            trajectory.initial_state() == *initial,
            trajectory.step_limit() == max_steps,
            forall|i: int|
                0 <= i < trajectory.collisions_view().len() ==> call_ensures(
                    next_collision,
                    (&state_before(*initial, trajectory.collisions_view(), i),),
                    Some(#[trigger] trajectory.collisions_view()[i]),
                ),
            trajectory.has_escaped() ==> call_ensures(
                next_collision,
                (&state_before(
                    *initial,
                    trajectory.collisions_view(),
                    trajectory.collisions_view().len() as int,
                ),),
                None::<CollisionResult>,
            ),
        decreases
            max_steps - trajectory.collisions_view().len() + (if trajectory.has_escaped() {
                0int
            } else {
                1int
            }),
    {
        match trajectory.pending() {
            None => {
                return trajectory.into_collisions();
            },
            Some(state) => {
                let ghost before = trajectory.collisions_view();
                let outcome = next_collision(&state);
                trajectory = trajectory.record(outcome);
                proof {
                    assert(state == state_before(*initial, before, before.len() as int));
                    let after = trajectory.collisions_view();
                    assert forall|i: int| 0 <= i < after.len() implies call_ensures(
                        next_collision,
                        (&state_before(*initial, after, i),),
                        Some(#[trigger] after[i]),
                    ) by {
                        if i < before.len() {
                            assert(after[i] == before[i]);
                            assert(state_before(*initial, after, i) == state_before(
                                *initial,
                                before,
                                i,
                            ));
                        }
                    }
                }
            },
        }
    }
}

} // verus!
