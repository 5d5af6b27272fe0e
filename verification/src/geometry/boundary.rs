//! Boundary components and tables.
//!
//! A boundary component is a closed chain of segments with its arc-length
//! table: entry `i` of the table is the arc length at which segment `i` ends.
//! The lengths themselves are measured by the caller, in binary64 arithmetic;
//! the component checks them, keeps the table, and answers which segment a
//! given arc length lies on.

use vstd::prelude::*;
use crate::geometry::error::{ConstructionError, IndexOutOfRange};
use crate::geometry::segments::BoundarySegment;
use crate::scalar::Scalar;

verus! {

/// Every length is greater than zero.
pub open spec fn positive_lengths(lengths: Seq<Scalar>) -> bool {
    forall|i: int| 0 <= i < lengths.len() ==> (#[trigger] lengths[i]).spec_gt(Scalar::spec_zero())
}

/// `index` is the first place at which a length is not greater than zero.
pub open spec fn first_non_positive(lengths: Seq<Scalar>, index: int) -> bool {
    &&& 0 <= index < lengths.len()
    &&& !lengths[index].spec_gt(Scalar::spec_zero())
    &&& forall|i: int| 0 <= i < index ==> (#[trigger] lengths[i]).spec_gt(Scalar::spec_zero())
}

/// What running sums of positive lengths always satisfy, however they were
/// rounded: entry `i` is at least the length of segment `i`, and no entry is
/// below an earlier one.
pub open spec fn consistent_table(lengths: Seq<Scalar>, cumulative: Seq<Scalar>) -> bool {
    &&& cumulative.len() == lengths.len()
    &&& forall|i: int| 0 <= i < cumulative.len() ==> (#[trigger] cumulative[i]).spec_ge(lengths[i])
    &&& forall|i: int|
        0 < i < cumulative.len() ==> (#[trigger] cumulative[i]).spec_ge(cumulative[i - 1])
}

/// An arc-length table that a component can keep: every entry is greater than
/// zero, and no entry is below an earlier one.
pub open spec fn usable_table(cumulative: Seq<Scalar>) -> bool {
    &&& cumulative.len() >= 1
    &&& forall|i: int|
        0 <= i < cumulative.len() ==> (#[trigger] cumulative[i]).spec_gt(Scalar::spec_zero())
    &&& forall|i: int, j: int|
        0 <= i <= j < cumulative.len() ==> (#[trigger] cumulative[i]).spec_le(
            #[trigger] cumulative[j],
        )
}

/// A consistent table over positive lengths is usable.
pub proof fn lemma_consistent_is_usable(lengths: Seq<Scalar>, cumulative: Seq<Scalar>)
    requires
        lengths.len() >= 1,
        positive_lengths(lengths),
        consistent_table(lengths, cumulative),
    ensures
        usable_table(cumulative),
{
    assert forall|i: int| 0 <= i < cumulative.len() implies (#[trigger] cumulative[i]).spec_gt(
        Scalar::spec_zero(),
    ) by {
        assert(lengths[i].spec_gt(Scalar::spec_zero()));
        assert(cumulative[i].spec_ge(lengths[i]));
    }
    assert forall|i: int, j: int| 0 <= i <= j < cumulative.len() implies (
    #[trigger] cumulative[i]).spec_le(#[trigger] cumulative[j]) by {
        lemma_steps_are_monotone(cumulative, i, j);
    }
}

/// A table that never steps down is monotone.
proof fn lemma_steps_are_monotone(cumulative: Seq<Scalar>, i: int, j: int)
    requires
        0 <= i <= j < cumulative.len(),
        forall|k: int|
            0 <= k < cumulative.len() ==> !(#[trigger] cumulative[k]).spec_is_nan(),
        forall|k: int|
            0 < k < cumulative.len() ==> (#[trigger] cumulative[k]).spec_ge(cumulative[k - 1]),
    ensures
        cumulative[i].spec_le(cumulative[j]),
    decreases j - i,
{
    if i < j {
        lemma_steps_are_monotone(cumulative, i, j - 1);
        assert(cumulative[j].spec_ge(cumulative[j - 1]));
    }
}

/// The measured lengths of the segments of one component: `lengths[i]` is
/// the length of segment `i`, and `cumulative[i]` the sum of the lengths up to
/// and including it.
#[derive(Debug)]
pub struct Measure {
    pub lengths: Vec<Scalar>,
    pub cumulative: Vec<Scalar>,
}

/// `index` is the place of the first length that is not greater than zero.
/// There is only one such place.
pub proof fn lemma_first_non_positive_is_unique(lengths: Seq<Scalar>, first: int, second: int)
    requires
        first_non_positive(lengths, first),
        first_non_positive(lengths, second),
    ensures
        first == second,
{
    if first < second {
        assert(lengths[first].spec_gt(Scalar::spec_zero()));
    } else if second < first {
        assert(lengths[second].spec_gt(Scalar::spec_zero()));
    }
}

/// Why a component of `segment_count` segments cannot be built with the given
/// measure, or `None` if it can. The checks come in this order: there is a
/// segment; both lists have one entry for each segment; every length is
/// greater than zero; the sums are consistent with the lengths.
pub open spec fn measure_error(
    segment_count: nat,
    lengths: Seq<Scalar>,
    cumulative: Seq<Scalar>,
) -> Option<ConstructionError> {
    if segment_count == 0 {
        Some(ConstructionError::EmptyBoundary)
    } else if lengths.len() != segment_count || cumulative.len() != segment_count {
        Some(ConstructionError::InconsistentLengths)
    } else if !positive_lengths(lengths) {
        Some(
            ConstructionError::NonPositiveLength {
                segment_index: (choose|i: int| first_non_positive(lengths, i)) as usize,
            },
        )
    } else if !consistent_table(lengths, cumulative) {
        Some(ConstructionError::InconsistentLengths)
    } else {
        None
    }
}

/// A closed boundary: the outer wall of a table, or one obstacle.
#[derive(Debug)]
pub struct BoundaryComponent {
    name: String,
    segments: Vec<BoundarySegment>,
    cumulative_lengths: Vec<Scalar>,
    total_length: Scalar,
}

impl BoundaryComponent {
    /// The label of the component.
    pub closed spec fn name_view(&self) -> Seq<char> {
        self.name@
    }

    /// The segments, in the order in which arc length runs through them.
    pub closed spec fn segments_view(&self) -> Seq<BoundarySegment> {
        self.segments@
    }

    /// The arc-length table: entry `i` is the arc length at which segment `i`
    /// ends.
    pub closed spec fn cumulative(&self) -> Seq<Scalar> {
        self.cumulative_lengths@
    }

    /// The arc length of the whole component.
    pub closed spec fn total(&self) -> Scalar {
        self.total_length
    }

    /// What holds of every component: it has a segment, its table has one
    /// usable entry for each segment, and its total is the last entry. Every
    /// component that exists is well formed; `segments`, `length`, `locate`
    /// and `length_before` say so of the component that they are called on.
    pub open spec fn well_formed(&self) -> bool {
        &&& self.segments_view().len() == self.cumulative().len()
        &&& usable_table(self.cumulative())
        &&& self.total() == self.cumulative().last()
    }

    #[verifier::type_invariant]
    spec fn holds(&self) -> bool {
        self.well_formed()
    }

    /// The arc length at which segment `index` begins: zero for the first
    /// segment, the table's entry before `index` for the others.
    pub open spec fn start_of(&self, index: int) -> Scalar {
        if index == 0 {
            Scalar::spec_zero()
        } else {
            self.cumulative()[index - 1]
        }
    }

    /// Whether `index` is the segment that arc length `s` is located on: the
    /// first segment that ends beyond `s`, or the last segment if none does.
    pub open spec fn locates(&self, s: Scalar, index: int) -> bool {
        &&& 0 <= index < self.cumulative().len()
        &&& forall|j: int| 0 <= j < index ==> !(#[trigger] self.cumulative()[j]).spec_gt(s)
        &&& (self.cumulative()[index].spec_gt(s) || index == self.cumulative().len() - 1)
    }

    /// Whether `s` lies on the half-open stretch of segment `index`: at or
    /// after its start, and before its end.
    pub open spec fn within(&self, s: Scalar, index: int) -> bool {
        &&& 0 <= index < self.cumulative().len()
        &&& self.start_of(index).spec_le(s)
        &&& s.spec_lt(self.cumulative()[index])
    }

    /// Builds a component from its segments and their measure, if the measure
    /// fits: see [`measure_error`].
    #[verifier::loop_isolation(false)]
    pub fn new(name: String, segments: Vec<BoundarySegment>, measure: &Measure) -> (made: Result<
        BoundaryComponent,
        ConstructionError,
    >)
        ensures
            match measure_error(segments.len() as nat, measure.lengths@, measure.cumulative@) {
                Some(error) => made == Err::<BoundaryComponent, ConstructionError>(error),
                None => {
                    &&& made matches Ok(component)
                    &&& component.well_formed()
                    &&& component.name_view() == name@
                    &&& component.segments_view() == segments@
                    &&& component.cumulative() == measure.cumulative@
                },
            },
            made matches Err(ConstructionError::NonPositiveLength { segment_index })
                ==> first_non_positive(measure.lengths@, segment_index as int),
    {
        let count: usize = segments.len();
        if count == 0 {
            return Err(ConstructionError::EmptyBoundary);
        }
        if measure.lengths.len() != count || measure.cumulative.len() != count {
            return Err(ConstructionError::InconsistentLengths);
        }
        let mut i: usize = 0;
        while i < count
            invariant
                i <= count,
                forall|k: int|
                    0 <= k < i ==> (#[trigger] measure.lengths[k]).spec_gt(Scalar::spec_zero()),
            decreases count - i,
        {
            if !measure.lengths[i].gt(Scalar::zero()) {
                proof {
                    let chosen = choose|k: int| first_non_positive(measure.lengths@, k);
                    assert(first_non_positive(measure.lengths@, i as int));
                    lemma_first_non_positive_is_unique(measure.lengths@, i as int, chosen);
                }
                return Err(ConstructionError::NonPositiveLength { segment_index: i });
            }
            i += 1;
        }
        let mut cumulative_lengths: Vec<Scalar> = Vec::new();
        let mut j: usize = 0;
        while j < count
            invariant
                j <= count,
                cumulative_lengths@ == measure.cumulative@.take(j as int),
                forall|k: int|
                    0 <= k < j ==> (#[trigger] measure.cumulative[k]).spec_ge(measure.lengths[k]),
                forall|k: int|
                    0 < k < j ==> (#[trigger] measure.cumulative[k]).spec_ge(
                        measure.cumulative[k - 1],
                    ),
            decreases count - j,
        {
            let entry = measure.cumulative[j];
            if !entry.ge(measure.lengths[j]) {
                return Err(ConstructionError::InconsistentLengths);
            }
            if j > 0 && !entry.ge(measure.cumulative[j - 1]) {
                return Err(ConstructionError::InconsistentLengths);
            }
            cumulative_lengths.push(entry);
            proof {
                assert(measure.cumulative@.take(j as int + 1) == measure.cumulative@.take(
                    j as int,
                ).push(entry));
            }
            j += 1;
        }
        proof {
            assert(measure.cumulative@.take(count as int) == measure.cumulative@);
            lemma_consistent_is_usable(measure.lengths@, measure.cumulative@);
        }
        let total_length = cumulative_lengths[count - 1];
        Ok(BoundaryComponent { name, segments, cumulative_lengths, total_length })
    }

    /// The label of the component.
    pub fn name(&self) -> (name: &String)
        ensures
            name@ == self.name_view(),
    {
        &self.name
    }

    /// The segments, in the order in which arc length runs through them.
    pub fn segments(&self) -> (segments: &Vec<BoundarySegment>)
        ensures
            self.well_formed(),
            segments@ == self.segments_view(),
            segments.len() >= 1,
    {
        proof {
            use_type_invariant(self);
        }
        &self.segments
    }

    /// The arc length of the whole component. It is greater than zero.
    pub fn length(&self) -> (total: Scalar)
        ensures
            self.well_formed(),
            total == self.total(),
            total == self.cumulative().last(),
            total.spec_gt(Scalar::spec_zero()),
    {
        proof {
            use_type_invariant(self);
        }
        self.total_length
    }

    /// The segment on which arc length `s` lies. `s` is meant to be wrapped
    /// into the component already, so at least zero and below the total; for
    /// a value at or beyond the total, and for NaN, the answer is the last
    /// segment.
    #[verifier::loop_isolation(false)]
    pub fn locate(&self, s: Scalar) -> (index: usize)
        ensures
            self.well_formed(),
            self.locates(s, index as int),
            index < self.segments_view().len(),
    {
        proof {
            use_type_invariant(self);
        }
        let count: usize = self.cumulative_lengths.len();
        let mut i: usize = 0;
        while i < count
            invariant
                i <= count,
                count == self.cumulative_lengths.len(),
                forall|j: int| 0 <= j < i ==> !(#[trigger] self.cumulative_lengths[j]).spec_gt(s),
            decreases count - i,
        {
            if self.cumulative_lengths[i].gt(s) {
                return i;
            }
            i += 1;
        }
        count - 1
    }

    /// The arc length that lies before segment `segment_index`: nothing for
    /// the first segment, the end of the segment before it for the others. A
    /// local arc length on the segment becomes a global one by adding it.
    pub fn length_before(&self, segment_index: usize) -> (before: Option<Scalar>)
        requires
            segment_index < self.segments_view().len(),
        ensures
            self.well_formed(),
            segment_index == 0 ==> before is None,
            segment_index > 0 ==> before == Some(self.cumulative()[segment_index - 1]),
            before matches Some(base) ==> base == self.start_of(segment_index as int),
    {
        proof {
            use_type_invariant(self);
        }
        if segment_index == 0 {
            None
        } else {
            Some(self.cumulative_lengths[segment_index - 1])
        }
    }

    /// No arc length is located on two segments.
    pub proof fn lemma_located_once(&self, s: Scalar, first: int, second: int)
        requires
            self.locates(s, first),
            self.locates(s, second),
        ensures
            first == second,
    {
        if first < second {
            assert(!self.cumulative()[first].spec_gt(s));
        } else if second < first {
            assert(!self.cumulative()[second].spec_gt(s));
        }
    }

    /// The segments partition the component: an arc length `s` from zero up
    /// to, but not including, the total is located on segment `index` exactly
    /// if it lies on the half-open stretch from the start of that segment to
    /// its end. A point where two segments meet belongs to the later one.
    pub proof fn lemma_locate_partitions(&self, s: Scalar, index: int)
        requires
            self.well_formed(),
            Scalar::spec_zero().spec_le(s),
            s.spec_lt(self.total()),
            0 <= index < self.cumulative().len(),
        ensures
            self.locates(s, index) <==> self.within(s, index),
    {
        let cum = self.cumulative();
        let last = cum.len() - 1;
        assert(cum[last].spec_gt(Scalar::spec_zero()));
        if self.locates(s, index) {
            if index > 0 {
                assert(!cum[index - 1].spec_gt(s));
                assert(cum[index - 1].spec_gt(Scalar::spec_zero()));
            }
        }
        if self.within(s, index) {
            assert forall|j: int| 0 <= j < index implies !(#[trigger] cum[j]).spec_gt(s) by {
                assert(cum[j].spec_le(cum[index - 1]));
            }
        }
    }

    /// Arc length runs through the segments in order: a later arc length is
    /// never located on an earlier segment.
    pub proof fn lemma_locate_keeps_order(
        &self,
        earlier: Scalar,
        later: Scalar,
        first: int,
        second: int,
    )
        requires
            self.well_formed(),
            earlier.spec_le(later),
            self.locates(earlier, first),
            self.locates(later, second),
        ensures
            first <= second,
    {
        if second < first {
            assert(!self.cumulative()[second].spec_gt(earlier));
            assert(self.cumulative()[second].spec_gt(Scalar::spec_zero()));
        }
    }
}

/// A billiard table: the outer boundary and the obstacles inside it.
/// Component 0 is the outer boundary; component `i` from 1 on is obstacle
/// `i - 1`.
#[derive(Debug)]
pub struct BilliardTable {
    pub outer: BoundaryComponent,
    pub obstacles: Vec<BoundaryComponent>,
}

impl BilliardTable {
    /// The components in the order of their indices: the outer boundary,
    /// then the obstacles.
    pub open spec fn components_view(&self) -> Seq<BoundaryComponent> {
        seq![self.outer] + self.obstacles@
    }

    /// The number of components: the outer boundary and each obstacle.
    pub fn component_count(&self) -> (count: usize)
        requires
            self.obstacles.len() < usize::MAX,
        ensures
            count == 1 + self.obstacles.len(),
            count == self.components_view().len(),
    {
        1 + self.obstacles.len()
    }

    /// The component with the given index, if there is one.
    pub fn component(&self, index: usize) -> (found: Result<&BoundaryComponent, IndexOutOfRange>)
        ensures
            index <= self.obstacles.len() ==> found == Ok::<&BoundaryComponent, IndexOutOfRange>(
                &self.components_view()[index as int],
            ),
            index == 0 ==> found == Ok::<&BoundaryComponent, IndexOutOfRange>(&self.outer),
            0 < index <= self.obstacles.len() ==> found == Ok::<
                &BoundaryComponent,
                IndexOutOfRange,
            >(&self.obstacles[index - 1]),
            index > self.obstacles.len() ==> found == Err::<&BoundaryComponent, IndexOutOfRange>(
                IndexOutOfRange { index, count: (self.obstacles.len() + 1) as usize },
            ),
    {
        if index == 0 {
            Ok(&self.outer)
        } else if index - 1 < self.obstacles.len() {
            Ok(&self.obstacles[index - 1])
        } else {
            Err(IndexOutOfRange { index, count: self.obstacles.len() + 1 })
        }
    }

    /// All components in the order of their indices.
    pub fn components(&self) -> (all: Vec<&BoundaryComponent>)
        ensures
            all.len() == self.obstacles.len() + 1,
            forall|i: int| 0 <= i < all.len() ==> *(#[trigger] all[i]) == self.components_view()[i],
    {
        let mut all: Vec<&BoundaryComponent> = Vec::new();
        all.push(&self.outer);
        let count: usize = self.obstacles.len();
        let mut i: usize = 0;
        while i < count
            invariant
                i <= count,
                count == self.obstacles.len(),
                all.len() == i + 1,
                forall|k: int|
                    0 <= k < all.len() ==> *(#[trigger] all[k]) == self.components_view()[k],
            decreases count - i,
        {
            all.push(&self.obstacles[i]);
            i += 1;
        }
        all
    }
}

} // verus!
