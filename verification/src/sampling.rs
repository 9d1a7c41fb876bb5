//! Index bookkeeping of the synthesized echo signal and of its plot: which
//! samples a pulse touches, which samples are drawn, how they are joined,
//! and where the distance ticks stand.
use vstd::prelude::*;

verus! {

/// Samples that the plot aims to draw at most (down-sampling starts above it).
pub const DOWNSAMPLE_TARGET: usize = 20000;

/// Number of intervals between distance ticks on the plot's axis.
pub const NUM_TICKS: usize = 10;

/// Distance between two neighbouring ticks, in millimetres.
pub const TICK_SPACING: usize = 500;

/// The last index that a pulse may touch in a buffer of `num_samples` samples.
pub open spec fn window_end(end: usize, num_samples: usize) -> int {
    if end < num_samples - 1 { end as int } else { num_samples - 1 }
}

/// The inclusive range of sample indices that a pulse touches, from its first
/// index `start` up to its last index `end`, cut at the end of the buffer of
/// `num_samples` samples; `None` when no index is left.
pub fn sample_window(start: usize, end: usize, num_samples: usize) -> (window: Option<(usize, usize)>)
    requires
        num_samples > 0,
    ensures
        start <= window_end(end, num_samples) ==> window == Some((start, window_end(end, num_samples) as usize)),
        start > window_end(end, num_samples) ==> window is None,
{
    let last: usize = if end < num_samples - 1 { end } else { num_samples - 1 };
    if start <= last {
        Some((start, last))
    } else {
        None
    }
}

/// Every sample index of a pulse's window lies in the buffer, so the pulse
/// never writes outside the signal.
pub proof fn lemma_window_in_bounds(start: usize, end: usize, num_samples: usize, j: int)
    requires
        num_samples > 0,
        start <= j <= window_end(end, num_samples),
    ensures
        0 <= j < num_samples,
        start <= j <= end,
{
}

/// A pulse's window ends at its own last index when that lies in the
/// buffer, and at the buffer's last sample otherwise; it holds every index
/// from `start` to that end, so a window inside the buffer is kept whole.
pub proof fn lemma_window_end_is_min(start: usize, end: usize, num_samples: usize)
    requires
        num_samples > 0,
    ensures
        end < num_samples ==> window_end(end, num_samples) == end,
        end >= num_samples ==> window_end(end, num_samples) == num_samples - 1,
        start <= end < num_samples ==> start <= window_end(end, num_samples),
{
}

/// The stride between drawn samples: the buffer length divided by the
/// target, and at least one.
pub fn downsample_step(num_samples: usize, target: usize) -> (step: usize)
    requires
        target > 0,
    ensures
        step == (if num_samples / target >= 1 { num_samples / target } else { 1 }),
        step >= 1,
{
    let q: usize = num_samples / target;
    if q >= 1 {
        q
    } else {
        1
    }
}

/// The indices of the drawn samples: every `step`-th index of a buffer of
/// `num_samples` samples, from 0 upwards, all of them and none beyond.
pub fn sample_indices(num_samples: usize, step: usize) -> (indices: Vec<usize>)
    requires
        step > 0,
    ensures
        forall|k: int| 0 <= k < indices.len() ==> #[trigger] indices[k] == k * step,
        indices.len() * step >= num_samples,
        indices.len() == 0 || (indices.len() - 1) * step < num_samples,
{
    let mut indices: Vec<usize> = Vec::new();
    if num_samples == 0 {
        return indices;
    }
    let mut idx: usize = 0;
    assert(indices.len() * step == 0) by (nonlinear_arith)
        requires
            indices.len() == 0,
    ;
    loop
        invariant_except_break
            idx < num_samples,
            idx == indices.len() * step,
        invariant
            step > 0,
            forall|k: int| 0 <= k < indices.len() ==> #[trigger] indices[k] == k * step,
        ensures
            forall|k: int| 0 <= k < indices.len() ==> #[trigger] indices[k] == k * step,
            indices.len() * step >= num_samples,
            indices.len() > 0,
            (indices.len() - 1) * step < num_samples,
        decreases num_samples - idx,
    {
        proof {
            assert((indices.len() + 1) * step == indices.len() * step + step) by (nonlinear_arith);
        }
        indices.push(idx);
        assert(indices.len() * step == idx + step);
        if num_samples - idx <= step {
            break;
        }
        idx = idx + step;
    }
    indices
}

/// Every drawn index lies inside the buffer: the index `k * step` of each of
/// the `count` drawn samples is below `num_samples`, so the plot never reads
/// past the signal.
pub proof fn lemma_indices_in_bounds(num_samples: usize, step: usize, count: nat, k: nat)
    requires
        step > 0,
        count == 0 || (count - 1) * step < num_samples,
        k < count,
    ensures
        k * step < num_samples,
{
    assert(k * step <= (count - 1) * step) by (nonlinear_arith)
        requires
            k <= count - 1,
            step > 0,
    ;
}

/// The lines that join the drawn points: each point is joined to the one
/// drawn before it.
pub fn polyline_segments(points: &Vec<usize>) -> (segments: Vec<(usize, usize)>)
    ensures
        segments.len() == (if points.len() == 0 { 0 } else { points.len() - 1 }),
        forall|k: int|
            0 <= k < segments.len() ==> #[trigger] segments[k] == (points[k], points[k + 1]),
{
    let mut segments: Vec<(usize, usize)> = Vec::new();
    let mut previous: Option<usize> = None;
    let mut i: usize = 0;
    while i < points.len()
        invariant
            i <= points.len(),
            i == 0 ==> previous is None,
            i > 0 ==> previous == Some(points[i - 1]),
            segments.len() == (if i == 0 { 0 } else { i - 1 }),
            forall|k: int|
                0 <= k < segments.len() ==> #[trigger] segments[k] == (points[k], points[k + 1]),
        decreases points.len() - i,
    {
        let current = points[i];
        match previous {
            Some(p) => segments.push((p, current)),
            None => {},
        }
        previous = Some(current);
        i = i + 1;
    }
    segments
}

/// The distances at which the plot's axis carries a tick: `num_ticks + 1`
/// of them, `spacing` apart, from zero.
pub fn tick_distances(num_ticks: usize, spacing: usize) -> (ticks: Vec<usize>)
    requires
        num_ticks * spacing <= usize::MAX,
        num_ticks < usize::MAX,
    ensures
        ticks.len() == num_ticks + 1,
        forall|i: int| 0 <= i < ticks.len() ==> #[trigger] ticks[i] == i * spacing,
{
    let mut ticks: Vec<usize> = Vec::new();
    let mut i: usize = 0;
    while i <= num_ticks
        invariant
            i <= num_ticks + 1,
            num_ticks * spacing <= usize::MAX,
            num_ticks < usize::MAX,
            ticks.len() == i,
            forall|k: int| 0 <= k < ticks.len() ==> #[trigger] ticks[k] == k * spacing,
        decreases num_ticks + 1 - i,
    {
        proof {
            assert(i * spacing <= num_ticks * spacing) by (nonlinear_arith)
                requires
                    i <= num_ticks,
            ;
        }
        ticks.push(i * spacing);
        i = i + 1;
    }
    ticks
}

} // verus!
