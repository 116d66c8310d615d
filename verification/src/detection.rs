//! Detections (box, class, confidence) and per-class frame results.

use vstd::prelude::*;

use crate::geometry::BoundingBox;
use crate::geometry::SCALE;

verus! {

/// One detected object: its box, its class index, and its confidence in
/// fixed-point units of `1 / SCALE`.
#[derive(Clone, Copy, Debug, PartialEq, Eq, Structural)]
pub struct Detection {
    pub bbox: BoundingBox,
    pub class_id: usize,
    pub conf: i64,
}

impl Detection {
    /// Usable irrespective of the class count: the box is well formed and the
    /// confidence lies in `[0, 1]`.
    pub open spec fn valid(self) -> bool {
        self.bbox.well_formed() && 0 <= self.conf <= SCALE
    }

    pub open spec fn well_formed(self, num_classes: int) -> bool {
        self.valid() && (self.class_id as int) < num_classes
    }

    /// Runtime counterpart of `valid`.
    pub fn check_valid(&self) -> (r: bool)
        ensures
            r == self.valid(),
    {
        self.bbox.check_well_formed() && 0 <= self.conf && self.conf <= SCALE
    }
}

/// The detections of one frame, bucketed by class: bucket `c` holds exactly
/// the detections whose `class_id` is `c`.
pub struct FrameResult {
    pub buckets: Vec<Vec<Detection>>,
}

impl FrameResult {
    pub open spec fn num_classes(self) -> int {
        self.buckets@.len() as int
    }

    pub open spec fn bucket_well_formed(b: Seq<Detection>, c: int, num_classes: int) -> bool {
        forall|i: int|
            0 <= i < b.len() ==> (#[trigger] b[i]).well_formed(num_classes) && b[i].class_id == c
    }

    pub open spec fn well_formed(self) -> bool {
        forall|c: int|
            0 <= c < self.buckets@.len() ==> #[trigger] Self::bucket_well_formed(
                self.buckets@[c]@,
                c,
                self.buckets@.len() as int,
            )
    }

    /// Runtime counterpart of `well_formed`.
    pub fn check_well_formed(&self) -> (r: bool)
        ensures
            r == self.well_formed(),
    {
        let n = self.buckets.len();
        let mut c: usize = 0;
        while c < n
            invariant
                c <= n,
                n == self.buckets@.len(),
                forall|cc: int|
                    0 <= cc < c ==> #[trigger] Self::bucket_well_formed(
                        self.buckets@[cc]@,
                        cc,
                        n as int,
                    ),
            decreases n - c,
        {
            let bucket = &self.buckets[c];
            let mut i: usize = 0;
            while i < bucket.len()
                invariant
                    i <= bucket@.len(),
                    bucket@ == self.buckets@[c as int]@,
                    c < self.buckets@.len(),
                    n == self.buckets@.len(),
                    forall|ii: int|
                        0 <= ii < i ==> (#[trigger] bucket@[ii]).well_formed(n as int)
                            && bucket@[ii].class_id == c,
                decreases bucket@.len() - i,
            {
                let d = &bucket[i];
                if !(d.check_valid() && d.class_id < n && d.class_id == c) {
                    proof {
                        if self.well_formed() {
                            assert(Self::bucket_well_formed(
                                self.buckets@[c as int]@,
                                c as int,
                                n as int,
                            ));
                            assert(bucket@[i as int].well_formed(n as int));
                        }
                    }
                    return false;
                }
                i += 1;
            }
            c += 1;
        }
        true
    }
}

} // verus!
