//! Polylines for sparkline charts.
//!
//! A path is a pure function of the samples, the value that maps to the top
//! of the chart and the size of the viewport. Coordinates are integers in
//! whatever sub-pixel unit the viewport is given in; both divisions round
//! down.

use vstd::prelude::*;
use crate::sample::{Sample, lemma_share_bounded};

verus! {

/// The drawing area, in the caller's unit of length.
#[derive(Clone, Copy, Debug, PartialEq, Eq, Structural)]
pub struct Viewport {
    pub width: u64,
    pub height: u64,
}

/// A position in the viewport; `y` grows downwards.
#[derive(Clone, Copy, Debug, PartialEq, Eq, Structural)]
pub struct Point {
    pub x: u64,
    pub y: u64,
}

/// One step of a polyline.
#[derive(Clone, Copy, Debug, PartialEq, Eq, Structural)]
pub enum PathSegment {
    /// Start the line here.
    MoveTo(Point),
    /// Draw a straight stroke to here.
    LineTo(Point),
}

/// `value` limited to the range from zero to `max_value`.
pub open spec fn spec_clamp(value: int, max_value: int) -> int {
    if value < 0 {
        0
    } else if value > max_value {
        max_value
    } else {
        value
    }
}

/// Horizontal position of sample `index` among `count` samples spread evenly
/// over `width`.
pub open spec fn spec_x(index: int, count: int, width: int) -> int {
    if count < 2 {
        index * width
    } else {
        (index * width) / (count - 1)
    }
}

/// Vertical position of `value` on a chart whose top stands for `max_value`:
/// the clamped value as a share of `max_value`, of `height`, counted from the
/// bottom edge.
pub open spec fn spec_y(value: int, max_value: int, height: int) -> int {
    if max_value <= 0 {
        height
    } else {
        height - (spec_clamp(value, max_value) * height) / max_value
    }
}

/// The point at which sample `index` of `samples` is plotted.
pub open spec fn spec_point(
    samples: Seq<Sample>,
    index: int,
    max_value: Sample,
    viewport: Viewport,
) -> Point {
    Point {
        x: spec_x(index, samples.len() as int, viewport.width as int) as u64,
        y: spec_y(samples[index].micros as int, max_value.micros as int, viewport.height as int) as u64,
    }
}

/// The step that sample `index` contributes: a move for the first sample, a
/// stroke for every later one.
pub open spec fn spec_segment(
    samples: Seq<Sample>,
    index: int,
    max_value: Sample,
    viewport: Viewport,
) -> PathSegment {
    if index == 0 {
        PathSegment::MoveTo(spec_point(samples, index, max_value, viewport))
    } else {
        PathSegment::LineTo(spec_point(samples, index, max_value, viewport))
    }
}

/// The polyline of `samples`: nothing where there are fewer than two samples
/// or `max_value` is not positive, else one step per sample.
pub open spec fn spec_path(samples: Seq<Sample>, max_value: Sample, viewport: Viewport) -> Seq<
    PathSegment,
> {
    if samples.len() < 2 || max_value.micros <= 0 {
        Seq::empty()
    } else {
        Seq::new(samples.len(), |i: int| spec_segment(samples, i, max_value, viewport))
    }
}

/// The largest of `floor` and all of `samples`.
pub open spec fn spec_running_max(samples: Seq<Sample>, floor: Sample) -> Sample
    decreases samples.len(),
{
    if samples.len() == 0 {
        floor
    } else {
        let rest = spec_running_max(samples.drop_last(), floor);
        if samples.last().micros > rest.micros {
            samples.last()
        } else {
            rest
        }
    }
}

/// Horizontal position of sample `index` among `count`.
pub fn plot_x(index: usize, count: usize, width: u64) -> (x: u64)
    requires
        index < count,
    ensures
        x == spec_x(index as int, count as int, width as int),
        x <= width,
{
    if count < 2 {
        assert(index as int * width as int == 0) by (nonlinear_arith)
            requires
                index == 0,
        ;
        return 0;
    }
    let span: usize = count - 1;
    proof {
        assert(0 <= index as int * width as int <= u64::MAX as int * u64::MAX as int)
            by (nonlinear_arith)
            requires
                0 <= index as int <= u64::MAX as int,
                0 <= width as int <= u64::MAX as int,
        ;
        lemma_share_bounded(index as int, span as int, width as int);
    }
    let scaled: u128 = (index as u128) * (width as u128);
    let x: u128 = scaled / (span as u128);
    x as u64
}

/// Vertical position of `value` on a chart of height `height` whose top
/// stands for `max_value`. Larger values plot higher, that is at a smaller
/// `y`.
pub fn plot_y(value: Sample, max_value: Sample, height: u64) -> (y: u64)
    ensures
        y == spec_y(value.micros as int, max_value.micros as int, height as int),
        y <= height,
{
    if max_value.micros <= 0 {
        return height;
    }
    let clamped: i64 = if value.micros < 0 {
        0
    } else if value.micros > max_value.micros {
        max_value.micros
    } else {
        value.micros
    };
    proof {
        assert(0 <= clamped as int * height as int <= i64::MAX as int * u64::MAX as int)
            by (nonlinear_arith)
            requires
                0 <= clamped as int <= i64::MAX as int,
                0 <= height as int <= u64::MAX as int,
        ;
        lemma_share_bounded(clamped as int, max_value.micros as int, height as int);
    }
    let scaled: u128 = (clamped as u128) * (height as u128);
    let rise: u128 = scaled / (max_value.micros as u128);
    height - (rise as u64)
}

/// The polyline through `samples`, oldest at the left edge and newest at the
/// right. Fewer than two samples, or a `max_value` that is not positive,
/// give an empty path.
pub fn build_path(samples: &[Sample], max_value: Sample, viewport: Viewport) -> (path: Vec<
    PathSegment,
>)
    ensures
        path@ == spec_path(samples@, max_value, viewport),
        samples@.len() < 2 || max_value.micros <= 0 ==> path@.len() == 0,
        samples@.len() >= 2 && max_value.micros > 0 ==> path@.len() == samples@.len(),
{
    let count: usize = samples.len();
    let mut path: Vec<PathSegment> = Vec::new();
    if count < 2 || max_value.micros <= 0 {
        return path;
    }
    let mut index: usize = 0;
    while index < count
        invariant
            index <= count,
            count == samples@.len(),
            count >= 2,
            max_value.micros > 0,
            path@.len() == index,
            forall|k: int|
                0 <= k < index ==> path@[k] == spec_segment(samples@, k, max_value, viewport),
        decreases count - index,
    {
        let point = Point {
            x: plot_x(index, count, viewport.width),
            y: plot_y(samples[index], max_value, viewport.height),
        };
        if index == 0 {
            path.push(PathSegment::MoveTo(point));
        } else {
            path.push(PathSegment::LineTo(point));
        }
        index += 1;
    }
    assert(path@ =~= spec_path(samples@, max_value, viewport));
    path
}

/// The value that maps to the top of a chart of unbounded rates: the largest
/// sample, but no less than `floor`.
pub fn running_max(samples: &[Sample], floor: Sample) -> (top: Sample)
    ensures
        top == spec_running_max(samples@, floor),
{
    let mut top = floor;
    let mut index: usize = 0;
    while index < samples.len()
        invariant
            index <= samples@.len(),
            top == spec_running_max(samples@.subrange(0, index as int), floor),
        decreases samples@.len() - index,
    {
        assert(samples@.subrange(0, index + 1).drop_last() =~= samples@.subrange(0, index as int));
        if samples[index].micros > top.micros {
            top = samples[index];
        }
        index += 1;
    }
    assert(samples@.subrange(0, index as int) =~= samples@);
    top
}

/// The running maximum is no less than the floor and than every sample, and
/// it is the floor or one of the samples.
pub proof fn lemma_running_max_bounds(samples: Seq<Sample>, floor: Sample)
    ensures
        spec_running_max(samples, floor).micros >= floor.micros,
        forall|i: int|
            0 <= i < samples.len() ==> samples[i].micros <= spec_running_max(samples, floor).micros,
        spec_running_max(samples, floor) == floor || samples.contains(
            spec_running_max(samples, floor),
        ),
    decreases samples.len(),
{
    if samples.len() > 0 {
        let earlier = samples.drop_last();
        lemma_running_max_bounds(earlier, floor);
        let rest = spec_running_max(earlier, floor);
        assert forall|i: int| 0 <= i < samples.len() implies samples[i].micros
            <= spec_running_max(samples, floor).micros by {
            if i < earlier.len() {
                assert(earlier[i] == samples[i]);
            }
        }
        if samples.last().micros > rest.micros {
            assert(samples[samples.len() - 1] == samples.last());
        } else if rest != floor {
            let j = choose|j: int| 0 <= j < earlier.len() && earlier[j] == rest;
            assert(samples[j] == rest);
        }
    }
}

/// A larger value never plots lower: `y` does not grow with the value.
pub proof fn lemma_y_monotonic(lower: int, higher: int, max_value: int, height: int)
    requires
        lower <= higher,
        0 <= height,
    ensures
        spec_y(lower, max_value, height) >= spec_y(higher, max_value, height),
{
    if max_value > 0 {
        let a = spec_clamp(lower, max_value);
        let b = spec_clamp(higher, max_value);
        assert((a * height) / max_value <= (b * height) / max_value) by (nonlinear_arith)
            requires
                0 <= a <= b,
                0 <= height,
                0 < max_value,
        ;
    }
}

/// Zero and everything below it plots on the bottom edge; `max_value` and
/// everything above it plots on the top edge.
pub proof fn lemma_y_edges(value: int, max_value: int, height: int)
    requires
        0 < max_value,
        0 <= height,
    ensures
        value <= 0 ==> spec_y(value, max_value, height) == height,
        value >= max_value ==> spec_y(value, max_value, height) == 0,
        0 <= spec_y(value, max_value, height) <= height,
{
    lemma_share_bounded(spec_clamp(value, max_value), max_value, height);
    if value >= max_value {
        assert((max_value * height) / max_value == height) by (nonlinear_arith)
            requires
                0 < max_value,
        ;
    }
    if value <= 0 {
        assert((0 * height) / max_value == 0) by (nonlinear_arith)
            requires
                0 < max_value,
        ;
    }
}

/// Half of `max_value` plots halfway up a chart of even height.
pub proof fn lemma_y_half(half: int, half_height: int)
    requires
        0 < half,
        0 <= half_height,
    ensures
        spec_y(half, 2 * half, 2 * half_height) == half_height,
{
    assert((half * (2 * half_height)) / (2 * half) == half_height) by (nonlinear_arith)
        requires
            0 < half,
            0 <= half_height,
    ;
}

/// Two values that differ by at least the worth of one unit of height plot
/// at different heights, the larger one strictly higher.
pub proof fn lemma_y_strict(lower: int, higher: int, max_value: int, height: int)
    requires
        0 <= lower <= higher <= max_value,
        0 < max_value,
        0 <= height,
        (higher - lower) * height >= max_value,
    ensures
        spec_y(lower, max_value, height) > spec_y(higher, max_value, height),
{
    assert((lower * height) / max_value < (higher * height) / max_value) by (nonlinear_arith)
        requires
            0 <= lower <= higher,
            0 < max_value,
            0 <= height,
            (higher - lower) * height >= max_value,
    ;
}

/// The first sample sits on the left edge, the last on the right edge, and
/// samples follow one another from left to right.
pub proof fn lemma_x_spread(index: int, count: int, width: int)
    requires
        2 <= count,
        0 <= index < count,
        0 <= width,
    ensures
        spec_x(0, count, width) == 0,
        spec_x(count - 1, count, width) == width,
        0 <= spec_x(index, count, width) <= width,
        index + 1 < count ==> spec_x(index, count, width) <= spec_x(index + 1, count, width),
{
    let span = count - 1;
    lemma_share_bounded(index, span, width);
    assert((0 * width) / span == 0) by (nonlinear_arith)
        requires
            0 < span,
    ;
    assert((span * width) / span == width) by (nonlinear_arith)
        requires
            0 < span,
    ;
    if index + 1 < count {
        assert((index * width) / span <= ((index + 1) * width) / span) by (nonlinear_arith)
            requires
                0 <= index,
                0 <= width,
                0 < span,
        ;
    }
}

} // verus!
