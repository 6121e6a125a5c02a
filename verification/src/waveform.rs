//! Summary of a mono signal as a fixed number of lowest and highest
//! amplitudes.
//!
//! The samples are the bit patterns of 32-bit IEEE 754 numbers and are
//! compared by `ieee::lt32`. The signal is cut into as many segments as
//! points are asked for, each `len / points` samples long; the last segment
//! also takes what is left over.

use crate::ieee::{is_nan32, le32, less32, lt32, not_a_number32, MAX_32, MIN_32};
use vstd::prelude::*;
use vstd::string::StringExecFns;

verus! {

/// The lowest and the highest amplitude of one segment, as bit patterns.
#[derive(Clone, Copy, Debug, PartialEq, Eq, Structural)]
pub struct WaveformPoint {
    /// The lowest amplitude of the segment.
    pub min: u32,
    /// The highest amplitude of the segment.
    pub max: u32,
}

/// Why no waveform could be made.
#[derive(Clone, Copy, Debug, PartialEq, Eq, Structural)]
pub enum WaveformError {
    /// The signal holds no sample.
    NoSamples,
    /// The signal holds fewer samples than points were asked for.
    TooShort,
}

/// What a user is told of a waveform that could not be made.
pub open spec fn waveform_failure_text(error: WaveformError) -> Seq<char> {
    match error {
        WaveformError::NoSamples => "No audio samples loaded"@,
        WaveformError::TooShort => "Audio too short for requested resolution"@,
    }
}

impl WaveformError {
    /// What a user is told of this failure.
    pub fn message(&self) -> (text: String)
        ensures
            text@ == waveform_failure_text(*self),
    {
        match self {
            WaveformError::NoSamples => String::from_str("No audio samples loaded"),
            WaveformError::TooShort => String::from_str(
                "Audio too short for requested resolution",
            ),
        }
    }
}

/// Whether a segment holds a sample that is a number.
pub open spec fn has_number(segment: Seq<u32>) -> bool
    decreases segment.len(),
{
    segment.len() > 0 && (has_number(segment.drop_last()) || !is_nan32(segment.last()))
}

/// The lowest amplitude of a segment: the smallest of its numbers, the
/// infinite ones included, and of equal ones the first. A sample that is not
/// a number is passed over. For a segment that holds no number it is the
/// largest finite number.
pub open spec fn lowest(segment: Seq<u32>) -> u32
    decreases segment.len(),
{
    if segment.len() == 0 {
        MAX_32
    } else {
        let before = lowest(segment.drop_last());
        if is_nan32(segment.last()) {
            before
        } else if !has_number(segment.drop_last()) || lt32(segment.last(), before) {
            segment.last()
        } else {
            before
        }
    }
}

/// The highest amplitude of a segment: the largest of its numbers, the
/// infinite ones included, and of equal ones the first. For a segment that
/// holds no number it is the smallest finite number.
pub open spec fn highest(segment: Seq<u32>) -> u32
    decreases segment.len(),
{
    if segment.len() == 0 {
        MIN_32
    } else {
        let before = highest(segment.drop_last());
        if is_nan32(segment.last()) {
            before
        } else if !has_number(segment.drop_last()) || lt32(before, segment.last()) {
            segment.last()
        } else {
            before
        }
    }
}

/// The point of a segment. An empty segment gives the point of two zeros.
pub open spec fn point_of(segment: Seq<u32>) -> WaveformPoint {
    if segment.len() == 0 {
        WaveformPoint { min: 0, max: 0 }
    } else {
        WaveformPoint { min: lowest(segment), max: highest(segment) }
    }
}

/// Where segment `index` of `points` begins in a signal of `len` samples.
pub open spec fn segment_start(len: int, points: int, index: int) -> int {
    index * (len / points)
}

/// Where segment `index` of `points` ends in a signal of `len` samples: the
/// last one at the end of the signal.
pub open spec fn segment_end(len: int, points: int, index: int) -> int {
    if index == points - 1 {
        len
    } else {
        (index + 1) * (len / points)
    }
}

/// Segment `index` of a signal that is cut into `points` segments.
pub open spec fn segment(samples: Seq<u32>, points: int, index: int) -> Seq<u32> {
    samples.subrange(
        segment_start(samples.len() as int, points, index),
        segment_end(samples.len() as int, points, index),
    )
}

/// The waveform of a signal: one point for each of `points` segments.
pub open spec fn waveform_of(samples: Seq<u32>, points: int) -> Seq<WaveformPoint> {
    Seq::new(points as nat, |i: int| point_of(segment(samples, points, i)))
}

proof fn lemma_segment_bounds(len: int, points: int, index: int)
    requires
        0 < points <= len,
        0 <= index < points,
    ensures
        0 <= segment_start(len, points, index) < segment_end(len, points, index) <= len,
        1 <= len / points,
        points * (len / points) <= len,
{
    let size = len / points;
    vstd::arithmetic::div_mod::lemma_fundamental_div_mod(len, points);
    vstd::arithmetic::div_mod::lemma_mod_bound(len, points);
    assert(size >= 1) by (nonlinear_arith)
        requires
            len == points * size + len % points,
            0 <= len % points < points,
            0 < points <= len,
    ;
    assert(0 <= index * size) by (nonlinear_arith)
        requires
            0 <= index,
            0 <= size,
    ;
    assert(index * size + size == (index + 1) * size) by (nonlinear_arith);
    assert((index + 1) * size <= points * size) by (nonlinear_arith)
        requires
            index + 1 <= points,
            0 <= size,
    ;
}

/// Finds the lowest and the highest amplitude of `samples[start..end]`.
fn summarize(samples: &[u32], start: usize, end: usize) -> (point: WaveformPoint)
    requires
        start < end <= samples@.len(),
    ensures
        point == point_of(samples@.subrange(start as int, end as int)),
{
    let mut low: u32 = MAX_32;
    let mut high: u32 = MIN_32;
    let mut found: bool = false;
    let mut index: usize = start;
    let ghost whole = samples@.subrange(start as int, end as int);
    proof {
        assert(whole.subrange(0, 0) =~= Seq::<u32>::empty());
    }
    while index < end
        invariant
            start <= index <= end <= samples@.len(),
            whole == samples@.subrange(start as int, end as int),
            found == has_number(whole.subrange(0, index - start)),
            low == lowest(whole.subrange(0, index - start)),
            high == highest(whole.subrange(0, index - start)),
        decreases end - index,
    {
        let sample = samples[index];
        proof {
            let seen = whole.subrange(0, index - start + 1);
            assert(seen.drop_last() =~= whole.subrange(0, index - start));
            assert(seen.last() == sample);
        }
        if !not_a_number32(sample) {
            if !found || less32(sample, low) {
                low = sample;
            }
            if !found || less32(high, sample) {
                high = sample;
            }
            found = true;
        }
        index += 1;
    }
    proof {
        assert(whole.subrange(0, end - start) =~= whole);
    }
    WaveformPoint { min: low, max: high }
}

/// Summarizes a mono signal as `num_points` points.
///
/// A signal without samples is refused, and so is one with fewer samples
/// than points. Asking for no points gives none.
pub fn generate_waveform(samples: &[u32], num_points: usize) -> (r: Result<
    Vec<WaveformPoint>,
    WaveformError,
>)
    ensures
        samples@.len() == 0 ==> r == Err::<Vec<WaveformPoint>, WaveformError>(
            WaveformError::NoSamples,
        ),
        0 < samples@.len() < num_points ==> r == Err::<Vec<WaveformPoint>, WaveformError>(
            WaveformError::TooShort,
        ),
        0 < samples@.len() && num_points <= samples@.len() ==> (r matches Ok(points) && points@
            == waveform_of(samples@, num_points as int)),
        r matches Ok(points) ==> points@.len() == num_points,
{
    let len = samples.len();
    if len == 0 {
        return Err(WaveformError::NoSamples);
    }
    if len < num_points {
        return Err(WaveformError::TooShort);
    }
    let mut points: Vec<WaveformPoint> = Vec::new();
    if num_points == 0 {
        proof {
            assert(points@ =~= waveform_of(samples@, 0));
        }
        return Ok(points);
    }
    let size: usize = len / num_points;
    let mut index: usize = 0;
    while index < num_points
        invariant
            0 < num_points <= len,
            len == samples@.len(),
            size == len / num_points,
            index <= num_points,
            points@.len() == index,
            forall|i: int|
                0 <= i < index ==> points@[i] == point_of(
                    #[trigger] segment(samples@, num_points as int, i),
                ),
        decreases num_points - index,
    {
        proof {
            lemma_segment_bounds(len as int, num_points as int, index as int);
            assert(index * size + size == (index + 1) * size) by (nonlinear_arith);
        }
        let start: usize = index * size;
        let end: usize = if index == num_points - 1 {
            len
        } else {
            start + size
        };
        assert(end == segment_end(len as int, num_points as int, index as int));
        let point = summarize(samples, start, end);
        points.push(point);
        index += 1;
    }
    proof {
        assert(points@ =~= waveform_of(samples@, num_points as int));
    }
    Ok(points)
}

proof fn lemma_extremes(segment: Seq<u32>)
    ensures
        !has_number(segment) ==> lowest(segment) == MAX_32 && highest(segment) == MIN_32,
        has_number(segment) ==> {
            &&& !is_nan32(lowest(segment))
            &&& !is_nan32(highest(segment))
            &&& le32(lowest(segment), highest(segment))
            &&& exists|i: int| 0 <= i < segment.len() && #[trigger] segment[i] == lowest(segment)
            &&& exists|i: int| 0 <= i < segment.len() && #[trigger] segment[i] == highest(segment)
        },
        forall|i: int|
            0 <= i < segment.len() && !is_nan32(#[trigger] segment[i]) ==> has_number(segment)
                && le32(lowest(segment), segment[i]) && le32(segment[i], highest(segment)),
    decreases segment.len(),
{
    if segment.len() > 0 {
        let front = segment.drop_last();
        let last = segment.last();
        lemma_extremes(front);
        assert forall|i: int| 0 <= i < segment.len() && !is_nan32(
            #[trigger] segment[i],
        ) implies has_number(segment) && le32(lowest(segment), segment[i]) && le32(
            segment[i],
            highest(segment),
        ) by {
            if i < front.len() {
                assert(front[i] == segment[i]);
            }
        }
        if has_number(segment) {
            if has_number(front) {
                let low = choose|i: int| 0 <= i < front.len() && #[trigger] front[i] == lowest(front);
                let high = choose|i: int|
                    0 <= i < front.len() && #[trigger] front[i] == highest(front);
                assert(segment[low] == front[low]);
                assert(segment[high] == front[high]);
            }
            assert(segment[segment.len() - 1] == last);
        }
    }
}

/// No number of a segment lies below its lowest amplitude or above its
/// highest.
pub proof fn point_bounds_segment(segment: Seq<u32>, index: int)
    requires
        0 <= index < segment.len(),
        !is_nan32(segment[index]),
    ensures
        le32(point_of(segment).min, segment[index]),
        le32(segment[index], point_of(segment).max),
{
    lemma_extremes(segment);
}

/// The lowest and the highest amplitude of a segment that holds a number are
/// numbers of the segment, the lowest no larger than the highest.
pub proof fn point_ends_occur(segment: Seq<u32>)
    requires
        has_number(segment),
    ensures
        exists|i: int| 0 <= i < segment.len() && #[trigger] segment[i] == point_of(segment).min,
        exists|i: int| 0 <= i < segment.len() && #[trigger] segment[i] == point_of(segment).max,
        !is_nan32(point_of(segment).min),
        !is_nan32(point_of(segment).max),
        le32(point_of(segment).min, point_of(segment).max),
{
    lemma_extremes(segment);
}

/// A waveform has as many points as were asked for, and in every point whose
/// segment holds a number the lowest amplitude is no larger than the highest.
pub proof fn waveform_points_ordered(samples: Seq<u32>, points: int, index: int)
    requires
        0 < points <= samples.len(),
        0 <= index < points,
        has_number(segment(samples, points, index)),
    ensures
        waveform_of(samples, points).len() == points,
        le32(waveform_of(samples, points)[index].min, waveform_of(samples, points)[index].max),
{
    lemma_extremes(segment(samples, points, index));
}

/// The segments follow one another without a gap from the first sample of
/// the signal to the last.
pub proof fn segments_cover_the_signal(len: int, points: int, index: int)
    requires
        0 < points <= len,
        0 <= index < points,
    ensures
        segment_start(len, points, 0) == 0,
        segment_end(len, points, points - 1) == len,
        index + 1 < points ==> segment_end(len, points, index) == segment_start(
            len,
            points,
            index + 1,
        ),
{
    assert(0 * (len / points) == 0) by (nonlinear_arith);
}

/// Every segment of a waveform holds at least one sample, so the point of
/// two zeros that stands for an empty segment never comes out for that
/// reason.
pub proof fn waveform_segments_hold_samples(samples: Seq<u32>, points: int, index: int)
    requires
        0 < points <= samples.len(),
        0 <= index < points,
    ensures
        segment(samples, points, index).len() >= 1,
{
    lemma_segment_bounds(samples.len() as int, points, index);
}

} // verus!
