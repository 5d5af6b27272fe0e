//! The decision core of a two-dimensional billiard simulator.
//!
//! A point particle moves in a region of the plane that is bounded by lines
//! and circular arcs, and bounces off the boundary by the law of reflection.
//! Where a ray meets a curve, and in which direction the particle leaves, is
//! arithmetic on binary64 numbers; that arithmetic is the caller's. This
//! crate holds what is decided around it, and proves it:
//!
//! - [`scalar`]: binary64 numbers by their bit patterns, and their order;
//! - [`geometry`]: segments, boundary components with their arc-length
//!   tables, tables, and the descriptions from which tables are built;
//! - [`dynamics`]: which solutions count as hits, which hit is the nearest,
//!   and how a trajectory runs and ends;
//! - [`api`]: which simulation requests are accepted, and how answers and
//!   failures are reported.

pub mod api;
pub mod dynamics;
pub mod geometry;
pub mod scalar;
