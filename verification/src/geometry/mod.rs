//! Table geometry: vectors, segments, boundary components and tables.

pub mod boundary;
pub mod error;
pub mod primitives;
pub mod segments;
pub mod table_spec;
