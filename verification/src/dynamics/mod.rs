//! Dynamics: hits of a ray on the boundary, collision states, trajectories.

pub mod intersection;
pub mod simulation;
pub mod state;
