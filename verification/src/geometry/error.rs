//! Why a piece of table geometry was turned down at construction.

use vstd::prelude::*;
use vstd::string::StringExecFns;

verus! {

/// A configuration error. None of them can be recovered from at the geometry
/// layer: the caller either checks its input first or stops.
#[derive(Clone, Copy, Debug)]
pub enum ConstructionError {
    /// A boundary component was given no segment.
    EmptyBoundary,
    /// The segment at this index has a length that is not greater than zero.
    NonPositiveLength { segment_index: usize },
    /// A circular arc has a radius that is not greater than zero.
    NonPositiveRadius,
    /// The arc-length table does not fit the segments: another number of
    /// entries, an entry that is NaN, or an entry below the one before it.
    InconsistentLengths,
}

/// An index that names no item: `index` is not below `count`.
#[derive(Clone, Copy, Debug)]
pub struct IndexOutOfRange {
    pub index: usize,
    pub count: usize,
}

impl ConstructionError {
    /// The sentence that describes the error.
    pub open spec fn spec_message(self) -> Seq<char> {
        match self {
            ConstructionError::EmptyBoundary => "BoundaryComponent must have at least one segment"@,
            ConstructionError::NonPositiveLength { .. } => "Boundary segments must have positive length"@,
            ConstructionError::NonPositiveRadius => "Radius must be positive."@,
            ConstructionError::InconsistentLengths => "Cumulative lengths do not match the segments"@,
        }
    }

    /// The sentence that describes the error.
    pub fn message(&self) -> (text: String)
        ensures
            text@ == self.spec_message(),
    {
        match self {
            ConstructionError::EmptyBoundary => String::from_str(
                "BoundaryComponent must have at least one segment",
            ),
            ConstructionError::NonPositiveLength { .. } => String::from_str(
                "Boundary segments must have positive length",
            ),
            ConstructionError::NonPositiveRadius => String::from_str("Radius must be positive."),
            ConstructionError::InconsistentLengths => String::from_str(
                "Cumulative lengths do not match the segments",
            ),
        }
    }
}

} // verus!
