//! The frame differ: the distance between a frame and the last one kept,
//! and the decision to forward or drop.
//!
//! Ratios are held in millionths: `SCALE` stands for one.

use vstd::prelude::*;
use crate::frame::{frame_view, Frame, FrameView};

verus! {

/// One, in millionths.
pub const SCALE: i64 = 1_000_000;

/// The least distance at which a frame is forwarded: six thousandths.
pub const FORWARD_THRESHOLD: i64 = 6_000;

/// The running maximum of the distance, for tuning: the largest distance
/// measured so far and the frame at which it occurred.
#[derive(Clone, Copy, Debug, PartialEq, Eq, Structural)]
pub struct MaxAverageFrame {
    pub frame_number: u64,
    pub average: i64,
}

/// What measuring a frame against the last kept one gave.
#[derive(Clone, Copy, Debug, PartialEq, Eq, Structural)]
pub enum Measurement {
    /// No frame was kept yet.
    NoPrevious,
    /// The two frames could not be measured.
    Failed(DiffError),
    /// The divergence of the luminance histograms and the structural
    /// similarity of the luminance, both in millionths.
    Scored { histogram: u32, structure: i32 },
}

/// Why a distance is undefined.
#[derive(Clone, Copy, Debug, PartialEq, Eq, Structural)]
pub enum DiffError {
    /// The frames have different dimensions.
    DimensionMismatch,
    /// The metrics gave no scores for the frames.
    MetricFailed,
    /// No frame was kept yet, so there is nothing to measure against.
    NoPreviousFrame,
}

/// The two scores of a pair of frames, in millionths: the divergence of
/// the luminance histograms, and the structural similarity of the
/// luminance.
#[derive(Clone, Copy, Debug, PartialEq, Eq, Structural)]
pub struct Scores {
    pub histogram: u32,
    pub structure: i32,
}

/// What measuring `current` against `previous` gives, where the metrics
/// gave `scores` for the two: nothing without a previous frame, an error
/// for frames of different dimensions whatever the scores, an error
/// without scores, else the scores.
pub open spec fn measurement_of(
    previous: Option<FrameView>,
    current: FrameView,
    scores: Option<Scores>,
) -> Measurement {
    match previous {
        None => Measurement::NoPrevious,
        Some(p) => if p.width != current.width || p.height != current.height {
            Measurement::Failed(DiffError::DimensionMismatch)
        } else {
            match scores {
                Some(s) => Measurement::Scored { histogram: s.histogram, structure: s.structure },
                None => Measurement::Failed(DiffError::MetricFailed),
            }
        },
    }
}

/// Says what measuring `current` against `previous` gave.
pub fn measure_frames(previous: &Option<Frame>, current: &Frame, scores: Option<Scores>) -> (m:
    Measurement)
    ensures
        m == measurement_of(frame_view(*previous), current@, scores),
{
    match previous {
        None => Measurement::NoPrevious,
        Some(p) => {
            if !p.same_dimensions(current) {
                Measurement::Failed(DiffError::DimensionMismatch)
            } else {
                match scores {
                    Some(s) => Measurement::Scored {
                        histogram: s.histogram,
                        structure: s.structure,
                    },
                    None => Measurement::Failed(DiffError::MetricFailed),
                }
            }
        },
    }
}

/// The distance of two frames: the mean of the histogram divergence and
/// of one minus the structural similarity, rounded down.
pub open spec fn distance(histogram: int, structure: int) -> int {
    (histogram + (SCALE - structure)) / 2
}

/// What a comparison reports: the distance of two measured frames. It
/// is undefined, and so an error, without a previous frame and for
/// frames that cannot be measured.
pub open spec fn compared(measurement: Measurement) -> Result<i64, DiffError> {
    match measurement {
        Measurement::NoPrevious => Err(DiffError::NoPreviousFrame),
        Measurement::Failed(e) => Err(e),
        Measurement::Scored { histogram, structure } => Ok(
            distance(histogram as int, structure as int) as i64,
        ),
    }
}

/// The distance that the decision goes by: an undefined distance
/// counts as the largest change.
pub open spec fn effective_distance(outcome: Result<i64, DiffError>) -> int {
    match outcome {
        Ok(d) => d as int,
        Err(_) => SCALE as int,
    }
}

/// The forward decision: a frame is forwarded where its distance is
/// undefined or reaches the threshold. The first frame of a session has
/// no distance, so it is always forwarded.
pub open spec fn forwards(outcome: Result<i64, DiffError>) -> bool {
    effective_distance(outcome) >= FORWARD_THRESHOLD
}

/// The running maximum after a comparison: a distance above the maximum
/// so far replaces it; anything else leaves it.
pub open spec fn max_after(
    max_average: Option<MaxAverageFrame>,
    outcome: Result<i64, DiffError>,
    frame_number: u64,
) -> Option<MaxAverageFrame> {
    match outcome {
        Ok(d) => if max_average is None || d > max_average->0.average {
            Some(MaxAverageFrame { frame_number, average: d })
        } else {
            max_average
        },
        Err(_) => max_average,
    }
}

/// The distance of two measured frames.
pub fn frame_distance(histogram: u32, structure: i32) -> (d: i64)
    ensures
        d == distance(histogram as int, structure as int),
{
    let doubled: i64 = (histogram as i64) + (SCALE - (structure as i64));
    if doubled >= 0 {
        doubled / 2
    } else {
        let below: i64 = 1 - doubled;
        let half: i64 = below / 2;
        0 - half
    }
}

/// Compares a frame with the last kept one, given what measuring the two
/// gave, and keeps the running maximum.
///
/// The maximum is for observation only; the forward decision never reads
/// it.
pub fn compare_with_previous_image(
    measurement: Measurement,
    max_average: &mut Option<MaxAverageFrame>,
    frame_number: u64,
) -> (outcome: Result<i64, DiffError>)
    ensures
        outcome == compared(measurement),
        *final(max_average) == max_after(
            *old(max_average),
            compared(measurement),
            frame_number,
        ),
{
    match measurement {
        Measurement::NoPrevious => Err(DiffError::NoPreviousFrame),
        Measurement::Failed(e) => Err(e),
        Measurement::Scored { histogram, structure } => {
            let d = frame_distance(histogram, structure);
            let larger = match max_average {
                Some(m) => d > m.average,
                None => true,
            };
            if larger {
                *max_average = Some(MaxAverageFrame { frame_number, average: d });
            }
            Ok(d)
        },
    }
}

/// Whether a frame is forwarded to the encoder.
pub fn should_write(outcome: Result<i64, DiffError>) -> (forward: bool)
    ensures
        forward == forwards(outcome),
{
    match outcome {
        Ok(d) => d >= FORWARD_THRESHOLD,
        Err(_) => true,
    }
}

/// Whether a frame is kept, given the frame kept before it and the way
/// pairs of frames are measured.
pub open spec fn keeps<F>(previous: Option<F>, frame: F, measure: spec_fn(F, F) -> Measurement)
    -> bool {
    forwards(
        compared(
            match previous {
                Some(p) => measure(p, frame),
                None => Measurement::NoPrevious,
            },
        ),
    )
}

/// The frame kept last after `frames` went through the differ one by
/// one.
pub open spec fn kept_after<F>(
    previous: Option<F>,
    frames: Seq<F>,
    measure: spec_fn(F, F) -> Measurement,
) -> Option<F>
    decreases frames.len(),
{
    if frames.len() == 0 {
        previous
    } else {
        let before = kept_after(previous, frames.drop_last(), measure);
        if keeps(before, frames.last(), measure) {
            Some(frames.last())
        } else {
            before
        }
    }
}

/// Whether the last of `frames` is forwarded, after the ones before it
/// went through the differ.
pub open spec fn forwards_last<F>(
    previous: Option<F>,
    frames: Seq<F>,
    measure: spec_fn(F, F) -> Measurement,
) -> bool
    recommends
        frames.len() > 0,
{
    keeps(kept_after(previous, frames.drop_last(), measure), frames.last(), measure)
}

/// While one frame repeats, the frame kept last is that frame, or it is
/// a frame against which that frame was dropped.
proof fn lemma_repeat_keeps_or_dropped<F>(
    previous: Option<F>,
    frame: F,
    count: nat,
    measure: spec_fn(F, F) -> Measurement,
)
    requires
        count >= 1,
        !forwards(compared(measure(frame, frame))),
    ensures
        ({
            let kept = kept_after(previous, Seq::new(count, |i: int| frame), measure);
            kept == Some(frame) || (kept matches Some(p) && !forwards(compared(measure(p, frame))))
        }),
    decreases count,
{
    let frames = Seq::new(count, |i: int| frame);
    assert(frames.last() == frame);
    assert(frames.drop_last() == Seq::new((count - 1) as nat, |i: int| frame));
    if count > 1 {
        lemma_repeat_keeps_or_dropped(previous, frame, (count - 1) as nat, measure);
    } else {
        assert(frames.drop_last().len() == 0);
    }
}

/// Of a run of identical frames only the first can be forwarded: every
/// later one is dropped, whatever was kept before the run. It holds where
/// a frame measured against itself stays under the threshold.
pub proof fn lemma_identical_run_forwards_first_only<F>(
    previous: Option<F>,
    frame: F,
    count: nat,
    k: int,
    measure: spec_fn(F, F) -> Measurement,
)
    requires
        count >= 2,
        1 <= k < count,
        !forwards(compared(measure(frame, frame))),
    ensures
        !forwards_last(previous, Seq::new(count, |i: int| frame).take(k + 1), measure),
{
    let run = Seq::new(count, |i: int| frame).take(k + 1);
    assert(run.last() == frame);
    assert(run.drop_last() == Seq::new(k as nat, |i: int| frame));
    lemma_repeat_keeps_or_dropped(previous, frame, k as nat, measure);
}

} // verus!
