//! Region-of-interest filter: the frame is usable only when the display
//! class holds exactly one box; real and empty markers are then counted only
//! where their box center lies within that display box, bounds inclusive.

use vstd::prelude::*;

use crate::detection::Detection;
use crate::detection::FrameResult;
use crate::geometry::BoundingBox;

verus! {

/// Bucket index of the real markers.
pub const CLASS_REAL: usize = 0;

/// Bucket index of the empty markers.
pub const CLASS_EMPTY: usize = 1;

/// Whether the center of `b` lies within `d`, bounds inclusive. Stated over
/// doubled coordinates, so that half-pixel centers compare exactly.
pub open spec fn center_within(b: BoundingBox, d: BoundingBox) -> bool {
    &&& 2 * d.x1 <= b.x1 + b.x2 <= 2 * d.x2
    &&& 2 * d.y1 <= b.y1 + b.y2 <= 2 * d.y2
}

/// The detections whose box center lies within the display box `d`.
pub open spec fn centered_in(d: BoundingBox) -> spec_fn(Detection) -> bool {
    |dd: Detection| center_within(dd.bbox, d)
}

/// What the region filter found in one frame.
#[derive(Clone, Copy, Debug, PartialEq, Eq, Structural)]
pub enum RegionOutcome {
    /// Exactly one display box: how many real and empty markers are centered
    /// within it.
    Counts { reals: usize, empties: usize },
    /// The display bucket did not hold exactly one box; the frame is unusable.
    NoDisplayRegion,
}

/// The display bucket: the last class of the frame.
pub open spec fn display_bucket(frame: FrameResult) -> Seq<Detection> {
    frame.buckets@[frame.num_classes() - 1]@
}

pub open spec fn spec_region_outcome(frame: FrameResult) -> RegionOutcome {
    if display_bucket(frame).len() != 1 {
        RegionOutcome::NoDisplayRegion
    } else {
        let disp = display_bucket(frame)[0].bbox;
        (RegionOutcome::Counts {
            reals: frame.buckets@[CLASS_REAL as int]@.filter(centered_in(disp)).len() as usize,
            empties: frame.buckets@[CLASS_EMPTY as int]@.filter(centered_in(disp)).len() as usize,
        })
    }
}

/// Counts the detections of one bucket whose center lies within `disp`.
fn count_centered(bucket: &Vec<Detection>, disp: &BoundingBox) -> (count: usize)
    requires
        disp.in_bounds(),
        forall|i: int| 0 <= i < bucket@.len() ==> (#[trigger] bucket@[i]).bbox.in_bounds(),
    ensures
        count == bucket@.filter(centered_in(*disp)).len(),
{
    let ghost pred = centered_in(*disp);
    let mut count: usize = 0;
    let mut i: usize = 0;
    while i < bucket.len()
        invariant
            i <= bucket@.len(),
            disp.in_bounds(),
            pred == centered_in(*disp),
            forall|ii: int| 0 <= ii < bucket@.len() ==> (#[trigger] bucket@[ii]).bbox.in_bounds(),
            count == bucket@.take(i as int).filter(pred).len(),
            count <= i,
        decreases bucket@.len() - i,
    {
        let b = &bucket[i].bbox;
        proof {
            assert(bucket@.take(i as int + 1) =~= bucket@.take(i as int).push(bucket@[i as int]));
            Seq::lemma_filter_push(bucket@.take(i as int), bucket@[i as int], pred);
        }
        if 2 * disp.x1 <= b.x1 + b.x2 && b.x1 + b.x2 <= 2 * disp.x2 && 2 * disp.y1 <= b.y1 + b.y2
            && b.y1 + b.y2 <= 2 * disp.y2 {
            count += 1;
        }
        i += 1;
    }
    proof {
        assert(bucket@.take(bucket@.len() as int) =~= bucket@);
    }
    count
}

/// Finds the single display box and counts the real and empty markers whose
/// centers lie within it, bounds inclusive; a frame whose display bucket does
/// not hold exactly one box yields `NoDisplayRegion`.
pub fn region_filter(frame: &FrameResult) -> (r: RegionOutcome)
    requires
        frame.well_formed(),
        frame.num_classes() >= 3,
    ensures
        r == spec_region_outcome(*frame),
{
    let n = frame.buckets.len();
    let display = &frame.buckets[n - 1];
    if display.len() != 1 {
        return RegionOutcome::NoDisplayRegion;
    }
    proof {
        assert(FrameResult::bucket_well_formed(frame.buckets@[n - 1]@, n - 1, n as int));
        assert(FrameResult::bucket_well_formed(frame.buckets@[CLASS_REAL as int]@, 0, n as int));
        assert(FrameResult::bucket_well_formed(frame.buckets@[CLASS_EMPTY as int]@, 1, n as int));
    }
    let disp = display[0].bbox;
    let reals = count_centered(&frame.buckets[CLASS_REAL], &disp);
    let empties = count_centered(&frame.buckets[CLASS_EMPTY], &disp);
    RegionOutcome::Counts { reals, empties }
}

} // verus!
