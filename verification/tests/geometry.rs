use billiard_core::geometry::boundary::{BilliardTable, BoundaryComponent, Measure};
use billiard_core::geometry::error::ConstructionError;
use billiard_core::geometry::primitives::{
    is_degenerate_length, Vec2, LENGTH_LOWER_BOUND_SQUARED_BITS,
};
use billiard_core::geometry::segments::{BoundarySegment, CircularArcSegment, LineSegment};
use billiard_core::scalar::Scalar;

fn scalar(value: f64) -> Scalar {
    Scalar::from_bits(value.to_bits())
}

fn num(value: Scalar) -> f64 {
    f64::from_bits(value.to_bits())
}

fn point(x: f64, y: f64) -> Vec2 {
    Vec2::new(scalar(x), scalar(y))
}

fn edge(x0: f64, y0: f64, x1: f64, y1: f64) -> BoundarySegment {
    BoundarySegment::Line(LineSegment::new(point(x0, y0), point(x1, y1)))
}

fn measure_of(lengths: &[f64], cumulative: &[f64]) -> Measure {
    Measure {
        lengths: lengths.iter().map(|&l| scalar(l)).collect(),
        cumulative: cumulative.iter().map(|&l| scalar(l)).collect(),
    }
}

/// A chain of `lengths.len()` edges along the first axis, with its measure.
fn chain(name: &str, lengths: &[f64]) -> BoundaryComponent {
    let mut segments = Vec::new();
    let mut cumulative = Vec::new();
    let mut running = 0.0;
    for &length in lengths {
        segments.push(edge(running, 0.0, running + length, 0.0));
        running += length;
        cumulative.push(running);
    }
    BoundaryComponent::new(name.to_string(), segments, &measure_of(lengths, &cumulative))
        .expect("a chain of positive lengths")
}

#[test]
fn length_bound_is_the_square_of_the_shortest_length() {
    assert_eq!(LENGTH_LOWER_BOUND_SQUARED_BITS, (1e-10f64 * 1e-10f64).to_bits());
    assert!(is_degenerate_length(scalar(0.0)));
    assert!(is_degenerate_length(scalar(9.9e-21)));
    assert!(!is_degenerate_length(scalar(1e-10f64 * 1e-10f64)));
    assert!(!is_degenerate_length(scalar(1.0)));
    // A length that is no number is not below the bound.
    assert!(!is_degenerate_length(scalar(f64::NAN)));
}

#[test]
fn perp_is_a_quarter_turn_to_the_left() {
    let turned = point(3.0, -4.0).perp();
    assert_eq!((num(turned.x), num(turned.y)), (4.0, 3.0));
    let up = point(1.0, 0.0).perp();
    assert_eq!(num(up.y), 1.0);
    assert_eq!(num(up.x), 0.0);
    // Four quarter turns are a full turn, bit for bit.
    let v = point(0.25, -7.5);
    let back = v.perp().perp().perp().perp();
    assert_eq!((back.x.to_bits(), back.y.to_bits()), (v.x.to_bits(), v.y.to_bits()));
}

#[test]
fn arc_needs_a_radius_above_zero() {
    let center = point(0.0, 0.0);
    let made = CircularArcSegment::new(center, scalar(2.0), scalar(0.0), scalar(1.0), false);
    let arc = made.expect("a positive radius");
    assert_eq!(num(arc.radius), 2.0);
    assert_eq!(num(arc.end_angle), 1.0);
    assert!(!arc.ccw);
    for &radius in &[0.0, -0.0, -1.0, f64::NAN, f64::NEG_INFINITY] {
        let made = CircularArcSegment::new(center, scalar(radius), scalar(0.0), scalar(1.0), true);
        assert!(matches!(made, Err(ConstructionError::NonPositiveRadius)), "radius {}", radius);
    }
}

#[test]
fn component_keeps_its_name_segments_and_total() {
    let component = chain("wall", &[1.0, 2.0, 0.5]);
    assert_eq!(component.name(), "wall");
    assert_eq!(component.segments().len(), 3);
    assert_eq!(num(component.length()), 3.5);
    match component.segments()[1] {
        BoundarySegment::Line(line) => {
            assert_eq!(num(line.start.x), 1.0);
            assert_eq!(num(line.end.x), 3.0);
        }
        BoundarySegment::CircularArc(_) => panic!("the chain is made of lines"),
    }
}

#[test]
fn component_without_segments_is_turned_down() {
    let made = BoundaryComponent::new("empty".to_string(), Vec::new(), &measure_of(&[], &[]));
    assert!(matches!(made, Err(ConstructionError::EmptyBoundary)));
}

#[test]
fn component_with_a_length_that_is_not_positive_is_turned_down() {
    let segments = vec![edge(0.0, 0.0, 1.0, 0.0), edge(1.0, 0.0, 1.0, 0.0), edge(1.0, 0.0, 0.0, 0.0)];
    let made = BoundaryComponent::new(
        "flat".to_string(),
        segments.clone(),
        &measure_of(&[1.0, 0.0, -1.0], &[1.0, 1.0, 0.0]),
    );
    // The first length at fault is the one reported.
    assert!(matches!(made, Err(ConstructionError::NonPositiveLength { segment_index: 1 })));
    let made = BoundaryComponent::new(
        "nan".to_string(),
        segments,
        &measure_of(&[f64::NAN, 1.0, 1.0], &[f64::NAN, f64::NAN, f64::NAN]),
    );
    assert!(matches!(made, Err(ConstructionError::NonPositiveLength { segment_index: 0 })));
}

#[test]
fn component_with_a_measure_that_does_not_fit_is_turned_down() {
    let segments = vec![edge(0.0, 0.0, 1.0, 0.0), edge(1.0, 0.0, 3.0, 0.0)];
    // Another number of entries.
    let made = BoundaryComponent::new(
        "short".to_string(),
        segments.clone(),
        &measure_of(&[1.0], &[1.0]),
    );
    assert!(matches!(made, Err(ConstructionError::InconsistentLengths)));
    // A sum below the sum before it.
    let made = BoundaryComponent::new(
        "down".to_string(),
        segments.clone(),
        &measure_of(&[3.0, 2.0], &[3.0, 2.0]),
    );
    assert!(matches!(made, Err(ConstructionError::InconsistentLengths)));
    // A sum below the length of its own segment.
    let made = BoundaryComponent::new(
        "low".to_string(),
        segments,
        &measure_of(&[1.0, 2.0], &[0.5, 2.0]),
    );
    assert!(matches!(made, Err(ConstructionError::InconsistentLengths)));
}

#[test]
fn construction_errors_say_what_is_wrong() {
    assert_eq!(
        ConstructionError::EmptyBoundary.message(),
        "BoundaryComponent must have at least one segment"
    );
    assert_eq!(
        ConstructionError::NonPositiveLength { segment_index: 3 }.message(),
        "Boundary segments must have positive length"
    );
    assert_eq!(ConstructionError::NonPositiveRadius.message(), "Radius must be positive.");
    assert_eq!(
        ConstructionError::InconsistentLengths.message(),
        "Cumulative lengths do not match the segments"
    );
}

#[test]
fn locate_finds_the_first_segment_that_ends_beyond() {
    let component = chain("steps", &[1.0, 2.0, 0.5]);
    assert_eq!(component.locate(scalar(0.0)), 0);
    assert_eq!(component.locate(scalar(0.999)), 0);
    // A point where two segments meet belongs to the later one.
    assert_eq!(component.locate(scalar(1.0)), 1);
    assert_eq!(component.locate(scalar(2.999)), 1);
    assert_eq!(component.locate(scalar(3.0)), 2);
    assert_eq!(component.locate(scalar(3.4)), 2);
    // At the total and beyond, and for what is no number, the last segment.
    assert_eq!(component.locate(scalar(3.5)), 2);
    assert_eq!(component.locate(scalar(100.0)), 2);
    assert_eq!(component.locate(scalar(f64::NAN)), 2);
    // Negative zero is zero.
    assert_eq!(component.locate(scalar(-0.0)), 0);
}

#[test]
fn locate_agrees_with_the_stretches_of_the_segments() {
    let lengths = [0.25, 1.5, 1e-9, 3.0, 0.125];
    let component = chain("stretches", &lengths);
    let total = num(component.length());
    let mut ends = Vec::new();
    let mut running = 0.0;
    for &length in &lengths {
        running += length;
        ends.push(running);
    }
    let steps = 5000;
    let mut last = 0;
    for k in 0..steps {
        let s = total * (k as f64) / (steps as f64);
        let index = component.locate(scalar(s));
        let start = if index == 0 { 0.0 } else { ends[index - 1] };
        assert!(start <= s && s < ends[index], "s = {} on segment {}", s, index);
        assert!(index >= last);
        last = index;
    }
    // Every segment is reached at its own start.
    for index in 0..lengths.len() {
        let start = if index == 0 { 0.0 } else { ends[index - 1] };
        assert_eq!(component.locate(scalar(start)), index);
    }
}

#[test]
fn length_before_is_nothing_for_the_first_segment() {
    let component = chain("steps", &[1.0, 2.0, 0.5]);
    assert!(component.length_before(0).is_none());
    assert_eq!(component.length_before(1).map(num), Some(1.0));
    assert_eq!(component.length_before(2).map(num), Some(3.0));
}

#[test]
fn table_counts_and_finds_its_components() {
    let table = BilliardTable {
        outer: chain("outer", &[1.0, 1.0]),
        obstacles: vec![chain("first", &[2.0]), chain("second", &[3.0])],
    };
    assert_eq!(table.component_count(), 3);
    assert_eq!(table.component(0).expect("the outer boundary").name(), "outer");
    assert_eq!(table.component(1).expect("an obstacle").name(), "first");
    assert_eq!(table.component(2).expect("an obstacle").name(), "second");
    let missing = table.component(3).expect_err("no such component");
    assert_eq!((missing.index, missing.count), (3, 3));
    let names: Vec<String> = table.components().iter().map(|c| c.name().clone()).collect();
    assert_eq!(names, vec!["outer", "first", "second"]);
}

#[test]
fn table_without_obstacles_has_one_component() {
    let table = BilliardTable { outer: chain("outer", &[4.0]), obstacles: Vec::new() };
    assert_eq!(table.component_count(), 1);
    assert_eq!(table.components().len(), 1);
    assert!(table.component(0).is_ok());
    let missing = table.component(1).expect_err("no such component");
    assert_eq!((missing.index, missing.count), (1, 1));
}
