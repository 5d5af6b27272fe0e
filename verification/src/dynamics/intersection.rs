//! Which hit of a ray counts.
//!
//! Where a ray meets a line or a circle is arithmetic on binary64 numbers
//! and is done by the caller. What is decided here is which of the solutions
//! count as hits, and which of several hits is the one the particle reaches
//! first.

use vstd::prelude::*;
use crate::geometry::boundary::{BilliardTable, BoundaryComponent};
use crate::geometry::primitives::Vec2;
use crate::geometry::segments::BoundarySegment;
use crate::scalar::{Scalar, ONE_BITS};

verus! {

/// The bit pattern of 1e-12: a ray and a line whose directions have a cross
/// product smaller than this in size count as parallel.
pub const PARALLEL_EPSILON_BITS: u64 = 0x3d71_9799_812d_ea11;

/// The bit pattern of 1e-14: two roots of the circle equation that differ by
/// no more than this are one point of tangency.
pub const ROOT_SEPARATION_BITS: u64 = 0x3d06_849b_86a1_2b9b;

/// The bit pattern of 1e-9: the tolerance, in radians and in arc length, by
/// which a point may lie beyond the ends of an arc and still be on it.
pub const ANGULAR_TOLERANCE_BITS: u64 = 0x3e11_2e0b_e826_d695;

/// A half-line: the points `origin + t * direction` for `t` from zero on.
/// The direction need not have length one.
#[derive(Clone, Copy, Debug)]
pub struct Ray {
    pub origin: Vec2,
    pub direction: Vec2,
}

/// A hit of a ray on one segment.
#[derive(Clone, Copy, Debug)]
pub struct SegmentHit {
    /// The distance along the ray from its origin to the hit.
    pub ray_parameter: Scalar,
    /// The arc length from the start of the segment to the hit.
    pub local_t: Scalar,
}

/// A hit of a ray on one boundary component.
#[derive(Clone, Copy, Debug)]
pub struct ComponentHit {
    /// The index of the segment within the component.
    pub segment_index: usize,
    /// The distance along the ray from its origin to the hit.
    pub ray_parameter: Scalar,
    /// The arc length from the start of the segment to the hit.
    pub local_t: Scalar,
}

/// A hit of a ray on a table.
#[derive(Clone, Copy, Debug)]
pub struct Intersection {
    /// The index of the component: 0 is the outer boundary.
    pub component_index: usize,
    /// The index of the segment within the component.
    pub segment_index: usize,
    /// The arc length from the start of the segment to the hit.
    pub local_t: Scalar,
    /// The distance along the ray from its origin to the hit.
    pub ray_parameter: Scalar,
}

/// The tolerance by which a point may lie beyond the ends of an arc.
pub open spec fn spec_angular_tolerance() -> Scalar {
    Scalar::spec_from_bits(ANGULAR_TOLERANCE_BITS)
}

/// The tolerance by which a point may lie beyond the ends of an arc.
#[verifier::when_used_as_spec(spec_angular_tolerance)]
pub fn angular_tolerance() -> (tolerance: Scalar)
    ensures
        tolerance == spec_angular_tolerance(),
{
    Scalar::from_bits(ANGULAR_TOLERANCE_BITS)
}

/// Whether the solution of the ray-line system is a hit.
///
/// The ray has a unit direction r and the segment a unit direction s;
/// `denominator` is the cross product of r and s, `t` the distance along the
/// ray, `u` the fraction of the segment at which the two lines meet, and
/// `local_t` that fraction times the length of the segment. There is a hit
/// exactly if the two directions are not parallel, the point lies further
/// than `epsilon` ahead of the origin, and `u` lies between zero and one, both
/// included. `epsilon` bounds the distance along the ray and nothing else.
pub fn line_hit(denominator: Scalar, t: Scalar, u: Scalar, local_t: Scalar, epsilon: Scalar) -> (hit:
    Option<SegmentHit>)
    ensures
        hit is Some <==> {
            &&& !denominator.spec_abs().spec_lt(Scalar::spec_from_bits(PARALLEL_EPSILON_BITS))
            &&& t.spec_gt(epsilon)
            &&& Scalar::spec_zero().spec_le(u)
            &&& u.spec_le(Scalar::spec_from_bits(ONE_BITS))
        },
        hit matches Some(h) ==> h.ray_parameter == t && h.local_t == local_t,
{
    if denominator.abs().lt(Scalar::from_bits(PARALLEL_EPSILON_BITS)) {
        return None;
    }
    if t.gt(epsilon) && Scalar::zero().le(u) && u.le(Scalar::from_bits(ONE_BITS)) {
        Some(SegmentHit { ray_parameter: t, local_t })
    } else {
        None
    }
}

/// Whether the smaller root of the circle equation is kept: it lies further
/// than `epsilon` ahead of the origin.
pub open spec fn keeps_first_root(discriminant: Scalar, t1: Scalar, epsilon: Scalar) -> bool {
    !discriminant.spec_lt(Scalar::spec_zero()) && t1.spec_gt(epsilon)
}

/// Whether the larger root of the circle equation is kept: it lies further
/// than `epsilon` ahead of the origin, and further from the smaller root than
/// the separation at which the two are one point of tangency.
pub open spec fn keeps_second_root(
    discriminant: Scalar,
    t2: Scalar,
    difference: Scalar,
    epsilon: Scalar,
) -> bool {
    &&& !discriminant.spec_lt(Scalar::spec_zero())
    &&& t2.spec_gt(epsilon)
    &&& difference.spec_abs().spec_gt(Scalar::spec_from_bits(ROOT_SEPARATION_BITS))
}

/// The roots of the circle equation that count, in ascending order.
///
/// For a ray with unit direction, `t1` and `t2` are the two roots, `t1` the
/// one with the square root subtracted, and `difference` is `t2 - t1`. With a
/// negative discriminant there is no root.
pub fn circle_roots(
    discriminant: Scalar,
    t1: Scalar,
    t2: Scalar,
    difference: Scalar,
    epsilon: Scalar,
) -> (roots: Vec<Scalar>)
    ensures
        roots.len() == (if keeps_first_root(discriminant, t1, epsilon) {
            1int
        } else {
            0int
        }) + (if keeps_second_root(discriminant, t2, difference, epsilon) {
            1int
        } else {
            0int
        }),
        keeps_first_root(discriminant, t1, epsilon) && !keeps_second_root(
            discriminant,
            t2,
            difference,
            epsilon,
        ) ==> roots@ == seq![t1],
        !keeps_first_root(discriminant, t1, epsilon) && keeps_second_root(
            discriminant,
            t2,
            difference,
            epsilon,
        ) ==> roots@ == seq![t2],
        keeps_first_root(discriminant, t1, epsilon) && keeps_second_root(
            discriminant,
            t2,
            difference,
            epsilon,
        ) ==> roots@ == (if t2.spec_lt(t1) {
            seq![t2, t1]
        } else {
            seq![t1, t2]
        }),
        forall|i: int| 0 <= i < roots.len() ==> (#[trigger] roots[i]).spec_gt(epsilon),
        forall|i: int, j: int|
            0 <= i <= j < roots.len() ==> (#[trigger] roots[i]).spec_le(#[trigger] roots[j]),
{
    let mut roots: Vec<Scalar> = Vec::new();
    if discriminant.lt(Scalar::zero()) {
        return roots;
    }
    let first = t1.gt(epsilon);
    let second = t2.gt(epsilon) && difference.abs().gt(Scalar::from_bits(ROOT_SEPARATION_BITS));
    if first && second {
        if t2.lt(t1) {
            roots.push(t2);
            roots.push(t1);
        } else {
            roots.push(t1);
            roots.push(t2);
        }
    } else if first {
        roots.push(t1);
    } else if second {
        roots.push(t2);
    }
    roots
}

/// Whether an angle lies in a span of angles: not below `low` and not above
/// `high`.
pub open spec fn spec_within_span(angle: Scalar, low: Scalar, high: Scalar) -> bool {
    !angle.spec_lt(low) && !angle.spec_gt(high)
}

/// Whether an angle lies in a span of angles: not below `low` and not above
/// `high`. The caller has brought the angle into the band of the span and has
/// widened the span by the angular tolerance.
#[verifier::when_used_as_spec(spec_within_span)]
pub fn within_span(angle: Scalar, low: Scalar, high: Scalar) -> (inside: bool)
    ensures
        inside == spec_within_span(angle, low, high),
{
    !(angle.lt(low) || angle.gt(high))
}

/// The arc length of a point on an arc, if the point is on the arc: see
/// [`arc_local_t`].
pub open spec fn spec_arc_local_t(local_t: Scalar, arc_length: Scalar, upper: Scalar) -> Option<
    Scalar,
> {
    if local_t.spec_lt(spec_angular_tolerance().spec_neg()) || local_t.spec_gt(upper) {
        None
    } else if local_t.spec_lt(Scalar::spec_zero()) {
        Some(Scalar::spec_zero())
    } else if local_t.spec_gt(arc_length) {
        Some(arc_length)
    } else {
        Some(local_t)
    }
}

/// The arc length of a hit on an arc, if the hit is on the arc.
///
/// `local_t` is the arc length from the start of the arc to the point,
/// `arc_length` the length of the arc and `upper` that length plus the
/// tolerance. A point further than the tolerance before the start, or beyond
/// `upper`, is not on the arc. Any other point is, at its arc length brought
/// into the range from zero to the length of the arc.
#[verifier::when_used_as_spec(spec_arc_local_t)]
pub fn arc_local_t(local_t: Scalar, arc_length: Scalar, upper: Scalar) -> (clamped: Option<Scalar>)
    ensures
        clamped == spec_arc_local_t(local_t, arc_length, upper),
        clamped is None <==> (local_t.spec_lt(spec_angular_tolerance().spec_neg())
            || local_t.spec_gt(upper)),
        clamped matches Some(value) ==> value == (if local_t.spec_lt(Scalar::spec_zero()) {
            Scalar::spec_zero()
        } else if local_t.spec_gt(arc_length) {
            arc_length
        } else {
            local_t
        }),
{
    if local_t.lt(angular_tolerance().neg()) || local_t.gt(upper) {
        return None;
    }
    if local_t.lt(Scalar::zero()) {
        Some(Scalar::zero())
    } else if local_t.gt(arc_length) {
        Some(arc_length)
    } else {
        Some(local_t)
    }
}

/// A point at which a ray meets the circle of an arc.
#[derive(Clone, Copy, Debug)]
pub struct ArcCandidate {
    /// The distance along the ray from its origin to the point.
    pub ray_parameter: Scalar,
    /// The angle of the point as seen from the center, brought into the band
    /// of the span of the arc.
    pub angle: Scalar,
    /// The arc length from the start of the arc to the point at that angle.
    pub local_t: Scalar,
}

/// The place of the nearest hit in a list of ray parameters, one entry for
/// each candidate and `None` where the candidate is no hit. The list is read
/// from the front, and a later hit takes the place of the one held only if its
/// ray parameter is smaller: of two hits at the same distance the earlier
/// stays.
pub open spec fn nearest_index(parameters: Seq<Option<Scalar>>) -> Option<int>
    decreases parameters.len(),
{
    if parameters.len() == 0 {
        None
    } else {
        let last = parameters.len() - 1;
        let held = nearest_index(parameters.drop_last());
        match (parameters[last], held) {
            (None, _) => held,
            (Some(_), None) => Some(last),
            (Some(t), Some(k)) => if t.spec_lt(parameters[k].unwrap()) {
                Some(last)
            } else {
                held
            },
        }
    }
}

/// No ray parameter in the list is NaN.
pub open spec fn all_numbers(parameters: Seq<Option<Scalar>>) -> bool {
    forall|i: int|
        0 <= i < parameters.len() && (#[trigger] parameters[i]) is Some
            ==> !parameters[i].unwrap().spec_is_nan()
}

/// `index` holds a hit that no other hit beats: none is nearer, and none
/// before it is as near.
pub open spec fn is_first_minimum(parameters: Seq<Option<Scalar>>, index: int) -> bool {
    &&& 0 <= index < parameters.len()
    &&& parameters[index] is Some
    &&& forall|j: int|
        0 <= j < parameters.len() && (#[trigger] parameters[j]) is Some
            ==> parameters[index].unwrap().spec_le(parameters[j].unwrap())
    &&& forall|j: int|
        0 <= j < index && (#[trigger] parameters[j]) is Some ==> parameters[index].unwrap().spec_lt(
            parameters[j].unwrap(),
        )
}

/// The nearest hit is a hit, and there is one as soon as any candidate is a
/// hit.
pub proof fn lemma_nearest_is_a_hit(parameters: Seq<Option<Scalar>>)
    ensures
        nearest_index(parameters) matches Some(k) ==> 0 <= k < parameters.len()
            && parameters[k] is Some,
        nearest_index(parameters) is None <==> forall|i: int|
            0 <= i < parameters.len() ==> (#[trigger] parameters[i]) is None,
    decreases parameters.len(),
{
    if parameters.len() > 0 {
        let front = parameters.drop_last();
        lemma_nearest_is_a_hit(front);
        assert forall|i: int| 0 <= i < front.len() implies front[i] == parameters[i] by {}
        if nearest_index(parameters) is None {
            assert forall|i: int| 0 <= i < parameters.len() implies (
            #[trigger] parameters[i]) is None by {
                if i < front.len() {
                    assert(front[i] is None);
                }
            }
        } else {
            let k = nearest_index(parameters).unwrap();
            assert(parameters[k] is Some);
        }
    }
}

/// Nearest-hit selection: where no ray parameter is NaN, the hit that is
/// selected has the smallest ray parameter of all hits, and is the first hit
/// with that ray parameter.
pub proof fn lemma_nearest_is_first_minimum(parameters: Seq<Option<Scalar>>)
    requires
        all_numbers(parameters),
    ensures
        nearest_index(parameters) matches Some(k) ==> is_first_minimum(parameters, k),
    decreases parameters.len(),
{
    if parameters.len() > 0 {
        let last = parameters.len() - 1;
        let front = parameters.drop_last();
        assert forall|i: int| 0 <= i < front.len() implies front[i] == parameters[i] by {}
        assert(all_numbers(front)) by {
            assert forall|i: int| 0 <= i < front.len() && (#[trigger] front[i]) is Some implies 
                !front[i].unwrap().spec_is_nan() by {
                assert(parameters[i] is Some);
            }
        }
        lemma_nearest_is_first_minimum(front);
        lemma_nearest_is_a_hit(front);
        match nearest_index(parameters) {
            None => {},
            Some(k) => {
                assert forall|j: int|
                    0 <= j < parameters.len() && (#[trigger] parameters[j]) is Some implies 
                    parameters[k].unwrap().spec_le(parameters[j].unwrap()) by {
                    if j < last {
                        assert(front[j] is Some);
                    }
                }
                assert forall|j: int| 0 <= j < k && (#[trigger] parameters[j]) is Some implies 
                    parameters[k].unwrap().spec_lt(parameters[j].unwrap()) by {
                    assert(front[j] is Some);
                }
            },
        }
    }
}

/// The ray parameters of a list of candidates on segments.
pub open spec fn segment_parameters(hits: Seq<Option<SegmentHit>>) -> Seq<Option<Scalar>> {
    Seq::new(
        hits.len(),
        |i: int|
            match hits[i] {
                Some(hit) => Some(hit.ray_parameter),
                None => None,
            },
    )
}

/// The ray parameters of a list of candidates on components.
pub open spec fn component_parameters(hits: Seq<Option<ComponentHit>>) -> Seq<Option<Scalar>> {
    Seq::new(
        hits.len(),
        |i: int|
            match hits[i] {
                Some(hit) => Some(hit.ray_parameter),
                None => None,
            },
    )
}

/// The nearest hit on a component: `hits[i]` is the hit on segment `i`, or
/// `None` if the ray misses that segment.
pub open spec fn spec_nearest_on_component(hits: Seq<Option<SegmentHit>>) -> Option<ComponentHit> {
    match nearest_index(segment_parameters(hits)) {
        None => None,
        Some(k) => Some(
            ComponentHit {
                segment_index: k as usize,
                ray_parameter: hits[k].unwrap().ray_parameter,
                local_t: hits[k].unwrap().local_t,
            },
        ),
    }
}

/// The nearest hit on a table: `hits[i]` is the nearest hit on component `i`,
/// or `None` if the ray misses that component.
pub open spec fn spec_nearest_on_table(hits: Seq<Option<ComponentHit>>) -> Option<Intersection> {
    match nearest_index(component_parameters(hits)) {
        None => None,
        Some(k) => Some(
            Intersection {
                component_index: k as usize,
                segment_index: hits[k].unwrap().segment_index,
                local_t: hits[k].unwrap().local_t,
                ray_parameter: hits[k].unwrap().ray_parameter,
            },
        ),
    }
}

/// The nearest of the hits of a ray on the segments of one component, with
/// the index of its segment. There is none if the ray misses every segment.
pub fn nearest_on_component(hits: &Vec<Option<SegmentHit>>) -> (nearest: Option<ComponentHit>)
    ensures
        nearest == spec_nearest_on_component(hits@),
{
    let mut best: Option<ComponentHit> = None;
    let mut i: usize = 0;
    while i < hits.len()
        invariant
            i <= hits.len(),
            best == spec_nearest_on_component(hits@.take(i as int)),
        decreases hits.len() - i,
    {
        proof {
            let upto = hits@.take(i as int + 1);
            assert(upto.drop_last() == hits@.take(i as int));
            assert(segment_parameters(upto).drop_last() == segment_parameters(upto.drop_last()));
            lemma_nearest_is_a_hit(segment_parameters(hits@.take(i as int)));
        }
        match hits[i] {
            None => {},
            Some(hit) => {
                let replace = match best {
                    None => true,
                    Some(held) => hit.ray_parameter.lt(held.ray_parameter),
                };
                if replace {
                    best = Some(
                        ComponentHit {
                            segment_index: i,
                            ray_parameter: hit.ray_parameter,
                            local_t: hit.local_t,
                        },
                    );
                }
            },
        }
        i += 1;
    }
    proof {
        assert(hits@.take(hits.len() as int) == hits@);
    }
    best
}

/// The hit that a point of the circle stands for, if the point is on the arc:
/// its angle lies in the span from `low` to `high`, and its arc length is
/// accepted by [`arc_local_t`].
pub open spec fn spec_on_arc(
    candidate: ArcCandidate,
    low: Scalar,
    high: Scalar,
    arc_length: Scalar,
    upper: Scalar,
) -> Option<SegmentHit> {
    if spec_within_span(candidate.angle, low, high) {
        match spec_arc_local_t(candidate.local_t, arc_length, upper) {
            Some(local_t) => Some(SegmentHit { ray_parameter: candidate.ray_parameter, local_t }),
            None => None,
        }
    } else {
        None
    }
}

/// The hits that the points of the circle stand for, point by point.
pub open spec fn hits_on_arc(
    candidates: Seq<ArcCandidate>,
    low: Scalar,
    high: Scalar,
    arc_length: Scalar,
    upper: Scalar,
) -> Seq<Option<SegmentHit>> {
    Seq::new(candidates.len(), |i: int| spec_on_arc(candidates[i], low, high, arc_length, upper))
}

/// The hit of a ray on an arc: of the points at which the ray meets the
/// circle, the nearest one that is on the arc.
pub open spec fn spec_arc_hit(
    candidates: Seq<ArcCandidate>,
    low: Scalar,
    high: Scalar,
    arc_length: Scalar,
    upper: Scalar,
) -> Option<SegmentHit> {
    match nearest_index(segment_parameters(hits_on_arc(candidates, low, high, arc_length, upper))) {
        Some(k) => spec_on_arc(candidates[k], low, high, arc_length, upper),
        None => None,
    }
}

/// The hit of a ray on an arc.
///
/// `candidates` are the points at which the ray meets the circle of the arc.
/// The span of the arc, widened by the angular tolerance, runs from `low` to
/// `high`; `arc_length` is the length of the arc and `upper` that length plus
/// the tolerance. A point is on the arc if its angle lies in the span and its
/// arc length is accepted; of the points on the arc the nearest is the hit,
/// and of two at the same distance, the earlier.
pub fn arc_hit(
    candidates: &Vec<ArcCandidate>,
    low: Scalar,
    high: Scalar,
    arc_length: Scalar,
    upper: Scalar,
) -> (hit: Option<SegmentHit>)
    ensures
        hit == spec_arc_hit(candidates@, low, high, arc_length, upper),
{
    let mut hits: Vec<Option<SegmentHit>> = Vec::new();
    let mut i: usize = 0;
    while i < candidates.len()
        invariant
            i <= candidates.len(),
            hits@ == hits_on_arc(candidates@, low, high, arc_length, upper).take(i as int),
        decreases candidates.len() - i,
    {
        let candidate = candidates[i];
        let on_arc = if within_span(candidate.angle, low, high) {
            match arc_local_t(candidate.local_t, arc_length, upper) {
                Some(local_t) => Some(
                    SegmentHit { ray_parameter: candidate.ray_parameter, local_t },
                ),
                None => None,
            }
        } else {
            None
        };
        hits.push(on_arc);
        proof {
            let all = hits_on_arc(candidates@, low, high, arc_length, upper);
            assert(all.take(i as int + 1) == all.take(i as int).push(on_arc));
        }
        i += 1;
    }
    proof {
        let all = hits_on_arc(candidates@, low, high, arc_length, upper);
        assert(all.take(candidates.len() as int) == all);
        lemma_nearest_is_a_hit(segment_parameters(all));
    }
    match nearest_on_component(&hits) {
        Some(nearest) => Some(
            SegmentHit { ray_parameter: nearest.ray_parameter, local_t: nearest.local_t },
        ),
        None => None,
    }
}

/// The nearest of the hits of a ray on the components of a table, with the
/// index of its component. There is none if the ray misses every component.
pub fn nearest_on_table(hits: &Vec<Option<ComponentHit>>) -> (nearest: Option<Intersection>)
    ensures
        nearest == spec_nearest_on_table(hits@),
{
    let mut best: Option<Intersection> = None;
    let mut i: usize = 0;
    while i < hits.len()
        invariant
            i <= hits.len(),
            best == spec_nearest_on_table(hits@.take(i as int)),
        decreases hits.len() - i,
    {
        proof {
            let upto = hits@.take(i as int + 1);
            assert(upto.drop_last() == hits@.take(i as int));
            assert(component_parameters(upto).drop_last() == component_parameters(
                upto.drop_last(),
            ));
            lemma_nearest_is_a_hit(component_parameters(hits@.take(i as int)));
        }
        match hits[i] {
            None => {},
            Some(hit) => {
                let replace = match best {
                    None => true,
                    Some(held) => hit.ray_parameter.lt(held.ray_parameter),
                };
                if replace {
                    best = Some(
                        Intersection {
                            component_index: i,
                            segment_index: hit.segment_index,
                            local_t: hit.local_t,
                            ray_parameter: hit.ray_parameter,
                        },
                    );
                }
            },
        }
        i += 1;
    }
    proof {
        assert(hits@.take(hits.len() as int) == hits@);
    }
    best
}

/// The nearest hit on each component: entry `c` is selected from
/// `segment_hits[c]`, the candidates on the segments of component `c`.
pub open spec fn nearest_on_each_component(segment_hits: Seq<Seq<Option<SegmentHit>>>) -> Seq<
    Option<ComponentHit>,
> {
    Seq::new(segment_hits.len(), |c: int| spec_nearest_on_component(segment_hits[c]))
}

/// Selection among candidates that all lie further than `epsilon` ahead:
/// selecting on each component and then among the components finds nothing
/// only if there is no candidate at all, and what it finds is one of the
/// candidates, under its own indices, with no candidate nearer.
proof fn lemma_nearest_among_candidates_beyond(
    segment_hits: Seq<Seq<Option<SegmentHit>>>,
    epsilon: Scalar,
)
    requires
        segment_hits.len() <= usize::MAX,
        forall|c: int|
            0 <= c < segment_hits.len() ==> (#[trigger] segment_hits[c]).len() <= usize::MAX,
        forall|c: int, i: int|
            0 <= c < segment_hits.len() && 0 <= i < segment_hits[c].len() && (
            #[trigger] segment_hits[c][i]) is Some
                ==> segment_hits[c][i].unwrap().ray_parameter.spec_gt(epsilon),
    ensures
        spec_nearest_on_table(nearest_on_each_component(segment_hits)) is None <==> forall|
            c: int,
            i: int,
        |
            0 <= c < segment_hits.len() && 0 <= i < segment_hits[c].len() ==> (
            #[trigger] segment_hits[c][i]) is None,
        spec_nearest_on_table(nearest_on_each_component(segment_hits)) matches Some(found) ==> {
            &&& found.component_index < segment_hits.len()
            &&& found.segment_index < segment_hits[found.component_index as int].len()
            &&& segment_hits[found.component_index as int][found.segment_index as int] == Some(
                SegmentHit { ray_parameter: found.ray_parameter, local_t: found.local_t },
            )
            &&& found.ray_parameter.spec_gt(epsilon)
            &&& forall|c: int, i: int|
                0 <= c < segment_hits.len() && 0 <= i < segment_hits[c].len() && (
                #[trigger] segment_hits[c][i]) is Some ==> found.ray_parameter.spec_le(
                    segment_hits[c][i].unwrap().ray_parameter,
                )
        },
{
    let per_component = nearest_on_each_component(segment_hits);
    let across = component_parameters(per_component);
    assert forall|c: int| 0 <= c < segment_hits.len() implies {
        &&& all_numbers(segment_parameters(#[trigger] segment_hits[c]))
        &&& per_component[c] is None <==> forall|i: int|
            0 <= i < segment_hits[c].len() ==> (#[trigger] segment_hits[c][i]) is None
        &&& per_component[c] matches Some(hit) ==> {
            &&& hit.segment_index < segment_hits[c].len()
            &&& segment_hits[c][hit.segment_index as int] == Some(
                SegmentHit { ray_parameter: hit.ray_parameter, local_t: hit.local_t },
            )
            &&& forall|i: int|
                0 <= i < segment_hits[c].len() && (#[trigger] segment_hits[c][i]) is Some
                    ==> hit.ray_parameter.spec_le(segment_hits[c][i].unwrap().ray_parameter)
        }
    } by {
        let hits = segment_hits[c];
        let along = segment_parameters(hits);
        assert(all_numbers(along)) by {
            assert forall|i: int| 0 <= i < along.len() && (#[trigger] along[i]) is Some implies 
                !along[i].unwrap().spec_is_nan() by {
                assert(hits[i] is Some);
            }
        }
        lemma_nearest_is_a_hit(along);
        lemma_nearest_is_first_minimum(along);
        if per_component[c] is None {
            assert forall|i: int| 0 <= i < hits.len() implies (#[trigger] hits[i]) is None by {
                assert(along[i] is None);
            }
        } else {
            let k = nearest_index(along).unwrap();
            assert(hits[k] is Some);
            assert forall|i: int| 0 <= i < hits.len() && (#[trigger] hits[i]) is Some implies 
                per_component[c].unwrap().ray_parameter.spec_le(hits[i].unwrap().ray_parameter) by {
                assert(along[i] is Some);
            }
        }
    }
    assert(all_numbers(across)) by {
        assert forall|c: int| 0 <= c < across.len() && (#[trigger] across[c]) is Some implies 
            !across[c].unwrap().spec_is_nan() by {
            assert(all_numbers(segment_parameters(segment_hits[c])));
            let hit = per_component[c].unwrap();
            assert(segment_hits[c][hit.segment_index as int] is Some);
        }
    }
    lemma_nearest_is_a_hit(across);
    lemma_nearest_is_first_minimum(across);
    match spec_nearest_on_table(per_component) {
        None => {
            assert forall|c: int, i: int|
                0 <= c < segment_hits.len() && 0 <= i < segment_hits[c].len() implies (
            #[trigger] segment_hits[c][i]) is None by {
                assert(across[c] is None);
                assert(all_numbers(segment_parameters(segment_hits[c])));
            }
        },
        Some(found) => {
            let k = nearest_index(across).unwrap();
            assert(across[k] is Some);
            assert(all_numbers(segment_parameters(segment_hits[k])));
            assert(segment_hits[k][found.segment_index as int] is Some);
            assert forall|c: int, i: int|
                0 <= c < segment_hits.len() && 0 <= i < segment_hits[c].len() && (
                #[trigger] segment_hits[c][i]) is Some implies found.ray_parameter.spec_le(
                segment_hits[c][i].unwrap().ray_parameter,
            ) by {
                assert(all_numbers(segment_parameters(segment_hits[c])));
                assert(across[c] is Some);
            }
        },
    }
}

/// What counts of a candidate: the candidate itself if it lies further than
/// `epsilon` ahead of the origin of the ray, and nothing otherwise.
pub open spec fn spec_beyond(hit: Option<SegmentHit>, epsilon: Scalar) -> Option<SegmentHit> {
    match hit {
        Some(h) => if h.ray_parameter.spec_gt(epsilon) {
            hit
        } else {
            None
        },
        None => None,
    }
}

/// What counts of a candidate: the candidate itself if it lies further than
/// `epsilon` ahead of the origin of the ray, and nothing otherwise. A point
/// no further ahead is the point that the particle has just left.
#[verifier::when_used_as_spec(spec_beyond)]
pub fn beyond(hit: Option<SegmentHit>, epsilon: Scalar) -> (counted: Option<SegmentHit>)
    ensures
        counted == spec_beyond(hit, epsilon),
{
    match hit {
        Some(h) => if h.ray_parameter.gt(epsilon) {
            hit
        } else {
            None
        },
        None => None,
    }
}

/// What counts of the candidates on the segments of one component.
pub open spec fn all_beyond(hits: Seq<Option<SegmentHit>>, epsilon: Scalar) -> Seq<
    Option<SegmentHit>,
> {
    Seq::new(hits.len(), |i: int| spec_beyond(hits[i], epsilon))
}

/// What counts of the candidates on the segments of every component.
pub open spec fn all_beyond_on_components(
    segment_hits: Seq<Seq<Option<SegmentHit>>>,
    epsilon: Scalar,
) -> Seq<Seq<Option<SegmentHit>>> {
    Seq::new(segment_hits.len(), |c: int| all_beyond(segment_hits[c], epsilon))
}

/// The hit on a table that is selected from the candidates
/// `segment_hits[c][i]` on segment `i` of component `c`: what counts of them
/// is selected from on each component, and then among the components.
pub open spec fn spec_table_hit(
    segment_hits: Seq<Seq<Option<SegmentHit>>>,
    epsilon: Scalar,
) -> Option<Intersection> {
    spec_nearest_on_table(
        nearest_on_each_component(all_beyond_on_components(segment_hits, epsilon)),
    )
}

/// Whether `found` is the nearest of the candidates that lie further than
/// `epsilon` ahead. If nothing is found, no candidate lies that far ahead.
/// What is found is one of the candidates, under its own indices; it lies
/// further than `epsilon` ahead, and no candidate that does is nearer.
pub open spec fn is_nearest_beyond(
    segment_hits: Seq<Seq<Option<SegmentHit>>>,
    epsilon: Scalar,
    found: Option<Intersection>,
) -> bool {
    match found {
        None => forall|c: int, i: int|
            0 <= c < segment_hits.len() && 0 <= i < segment_hits[c].len() ==> spec_beyond(
                #[trigger] segment_hits[c][i],
                epsilon,
            ) is None,
        Some(hit) => {
            &&& hit.component_index < segment_hits.len()
            &&& hit.segment_index < segment_hits[hit.component_index as int].len()
            &&& segment_hits[hit.component_index as int][hit.segment_index as int] == Some(
                SegmentHit { ray_parameter: hit.ray_parameter, local_t: hit.local_t },
            )
            &&& hit.ray_parameter.spec_gt(epsilon)
            &&& forall|c: int, i: int|
                0 <= c < segment_hits.len() && 0 <= i < segment_hits[c].len() && spec_beyond(
                    #[trigger] segment_hits[c][i],
                    epsilon,
                ) is Some ==> hit.ray_parameter.spec_le(segment_hits[c][i].unwrap().ray_parameter)
        },
    }
}

/// Nearest-hit selection on a table: among all candidates of a ray on the
/// segments of the components of a table, the hit that is selected has the
/// least ray parameter that is greater than `epsilon`. This holds of any
/// candidates whatever; the lists only have to be as long as lists can be.
pub proof fn lemma_table_hit_is_nearest(
    segment_hits: Seq<Seq<Option<SegmentHit>>>,
    epsilon: Scalar,
)
    requires
        segment_hits.len() <= usize::MAX,
        forall|c: int|
            0 <= c < segment_hits.len() ==> (#[trigger] segment_hits[c]).len() <= usize::MAX,
    ensures
        is_nearest_beyond(segment_hits, epsilon, spec_table_hit(segment_hits, epsilon)),
{
    let counted = all_beyond_on_components(segment_hits, epsilon);
    assert forall|c: int, i: int|
        0 <= c < counted.len() && 0 <= i < counted[c].len() && (
        #[trigger] counted[c][i]) is Some implies counted[c][i].unwrap().ray_parameter.spec_gt(
        epsilon,
    ) by {
        assert(counted[c][i] == spec_beyond(segment_hits[c][i], epsilon));
    }
    lemma_nearest_among_candidates_beyond(counted, epsilon);
    match spec_table_hit(segment_hits, epsilon) {
        None => {
            assert forall|c: int, i: int|
                0 <= c < segment_hits.len() && 0 <= i < segment_hits[c].len() implies spec_beyond(
                #[trigger] segment_hits[c][i],
                epsilon,
            ) is None by {
                assert(counted[c][i] is None);
            }
        },
        Some(hit) => {
            let c0 = hit.component_index as int;
            let i0 = hit.segment_index as int;
            assert(counted[c0][i0] == spec_beyond(segment_hits[c0][i0], epsilon));
            assert forall|c: int, i: int|
                0 <= c < segment_hits.len() && 0 <= i < segment_hits[c].len() && spec_beyond(
                    #[trigger] segment_hits[c][i],
                    epsilon,
                ) is Some implies hit.ray_parameter.spec_le(
                segment_hits[c][i].unwrap().ray_parameter,
            ) by {
                assert(counted[c][i] is Some);
            }
        },
    }
}

impl Ray {
    /// Whether `hits` is what `hit_segment` can find for this ray on the given
    /// segments, one entry for each segment.
    pub open spec fn finds_on_segments<F: Fn(&Ray, &BoundarySegment, Scalar) -> Option<SegmentHit>>(
        &self,
        segments: Seq<BoundarySegment>,
        epsilon: Scalar,
        hit_segment: F,
        hits: Seq<Option<SegmentHit>>,
    ) -> bool {
        &&& hits.len() == segments.len()
        &&& hits.len() <= usize::MAX
        &&& forall|i: int|
            0 <= i < segments.len() ==> call_ensures(
                hit_segment,
                (self, &segments[i], epsilon),
                #[trigger] hits[i],
            )
    }

    /// The nearest hit of the ray on a component, where `hit_segment` finds
    /// the hit of a ray on one segment. Every segment is tried, in order.
    /// What is found on a segment counts if it lies further than `epsilon`
    /// ahead of the origin; of what counts, the nearest is taken, and of two
    /// hits at the same distance the one on the earlier segment.
    pub fn intersect_component<F>(
        &self,
        component: &BoundaryComponent,
        epsilon: Scalar,
        hit_segment: &F,
    ) -> (nearest: Option<ComponentHit>) where
        F: Fn(&Ray, &BoundarySegment, Scalar) -> Option<SegmentHit>,

        requires
            forall|ray: &Ray, segment: &BoundarySegment, bound: Scalar|
                call_requires(*hit_segment, (ray, segment, bound)),
        ensures
            exists|hits: Seq<Option<SegmentHit>>|
                {
                    &&& #[trigger] self.finds_on_segments(
                        component.segments_view(),
                        epsilon,
                        *hit_segment,
                        hits,
                    )
                    &&& nearest == spec_nearest_on_component(all_beyond(hits, epsilon))
                },
            nearest matches Some(hit) ==> hit.ray_parameter.spec_gt(epsilon),
    {
        let segments = component.segments();
        let mut counted: Vec<Option<SegmentHit>> = Vec::new();
        let ghost mut hits: Seq<Option<SegmentHit>> = Seq::empty();
        let mut i: usize = 0;
        while i < segments.len()
            invariant
                i <= segments.len(),
                hits.len() == i,
                counted@ == all_beyond(hits, epsilon),
                forall|ray: &Ray, segment: &BoundarySegment, bound: Scalar|
                    call_requires(*hit_segment, (ray, segment, bound)),
                forall|k: int|
                    0 <= k < i ==> call_ensures(
                        *hit_segment,
                        (self, &segments[k], epsilon),
                        #[trigger] hits[k],
                    ),
            decreases segments.len() - i,
        {
            let hit = hit_segment(self, &segments[i], epsilon);
            counted.push(beyond(hit, epsilon));
            proof {
                let grown = hits.push(hit);
                assert(all_beyond(grown, epsilon) == all_beyond(hits, epsilon).push(
                    spec_beyond(hit, epsilon),
                ));
                hits = grown;
            }
            i += 1;
        }
        let nearest = nearest_on_component(&counted);
        proof {
            assert(self.finds_on_segments(
                component.segments_view(),
                epsilon,
                *hit_segment,
                hits,
            ));
            lemma_nearest_is_a_hit(segment_parameters(counted@));
        }
        nearest
    }

    /// Whether `segment_hits` is what `hit_segment` can find for this ray on
    /// the given components: entry `c` holds an entry for each segment of
    /// component `c`.
    pub open spec fn finds_on_components<F: Fn(&Ray, &BoundarySegment, Scalar) -> Option<SegmentHit>>(
        &self,
        components: Seq<BoundaryComponent>,
        epsilon: Scalar,
        hit_segment: F,
        segment_hits: Seq<Seq<Option<SegmentHit>>>,
    ) -> bool {
        &&& segment_hits.len() == components.len()
        &&& forall|c: int|
            0 <= c < components.len() ==> self.finds_on_segments(
                components[c].segments_view(),
                epsilon,
                hit_segment,
                #[trigger] segment_hits[c],
            )
    }

    /// The nearest hit of the ray on a table, where `hit_segment` finds the
    /// hit of a ray on one segment. Every segment of every component is
    /// tried, the outer boundary first and then the obstacles in order.
    ///
    /// Among all that is found, the hit returned has the least ray parameter
    /// that is greater than `epsilon`; there is none only if nothing found
    /// lies that far ahead. Of two hits at the same distance the one on the
    /// earlier component is taken; that follows from the order and is no
    /// rule of the table.
    pub fn intersect_table<F>(&self, table: &BilliardTable, epsilon: Scalar, hit_segment: &F) -> (nearest:
        Option<Intersection>) where F: Fn(&Ray, &BoundarySegment, Scalar) -> Option<SegmentHit>
        requires
            forall|ray: &Ray, segment: &BoundarySegment, bound: Scalar|
                call_requires(*hit_segment, (ray, segment, bound)),
        ensures
            exists|segment_hits: Seq<Seq<Option<SegmentHit>>>|
                {
                    &&& #[trigger] self.finds_on_components(
                        table.components_view(),
                        epsilon,
                        *hit_segment,
                        segment_hits,
                    )
                    &&& nearest == spec_table_hit(segment_hits, epsilon)
                    &&& is_nearest_beyond(segment_hits, epsilon, nearest)
                },
            nearest matches Some(hit) ==> hit.ray_parameter.spec_gt(epsilon),
    {
        let components = table.components();
        let mut hits: Vec<Option<ComponentHit>> = Vec::new();
        let ghost mut segment_hits: Seq<Seq<Option<SegmentHit>>> = Seq::empty();
        let mut c: usize = 0;
        while c < components.len()
            invariant
                c <= components.len(),
                components.len() == table.components_view().len(),
                forall|k: int|
                    0 <= k < components.len() ==> *(#[trigger] components[k])
                        == table.components_view()[k],
                hits.len() == c,
                segment_hits.len() == c,
                forall|ray: &Ray, segment: &BoundarySegment, bound: Scalar|
                    call_requires(*hit_segment, (ray, segment, bound)),
                forall|k: int|
                    0 <= k < c ==> self.finds_on_segments(
                        table.components_view()[k].segments_view(),
                        epsilon,
                        *hit_segment,
                        #[trigger] segment_hits[k],
                    ),
                hits@ == nearest_on_each_component(
                    all_beyond_on_components(segment_hits, epsilon),
                ),
            decreases components.len() - c,
        {
            let hit = self.intersect_component(components[c], epsilon, hit_segment);
            proof {
                let found = choose|found: Seq<Option<SegmentHit>>|
                    {
                        &&& #[trigger] self.finds_on_segments(
                            components[c as int].segments_view(),
                            epsilon,
                            *hit_segment,
                            found,
                        )
                        &&& hit == spec_nearest_on_component(all_beyond(found, epsilon))
                    };
                let grown = segment_hits.push(found);
                assert(all_beyond_on_components(grown, epsilon) == all_beyond_on_components(
                    segment_hits,
                    epsilon,
                ).push(all_beyond(found, epsilon)));
                assert(nearest_on_each_component(all_beyond_on_components(grown, epsilon))
                    == nearest_on_each_component(
                    all_beyond_on_components(segment_hits, epsilon),
                ).push(hit));
                segment_hits = grown;
            }
            hits.push(hit);
            c += 1;
        }
        let nearest = nearest_on_table(&hits);
        proof {
            assert(self.finds_on_components(
                table.components_view(),
                epsilon,
                *hit_segment,
                segment_hits,
            ));
            lemma_table_hit_is_nearest(segment_hits, epsilon);
        }
        nearest
    }
}

} // verus!
