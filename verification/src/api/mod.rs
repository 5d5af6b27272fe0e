//! What a simulation service decides before and after it runs the engine:
//! which requests it accepts, how it reports a failure, and how it lists the
//! collisions.

pub mod error;
pub mod routes;
pub mod types;
