//! One identification cycle: decode a raw tensor, suppress each class bucket,
//! count the markers centered in the display box, and advance the stabilizer.
//! Each cycle amounts to one `CycleOutcome`, and each outcome maps to at most
//! one signal for the surrounding application.

use vstd::prelude::*;

use crate::decoder::decode;
use crate::decoder::decode_seq;
use crate::decoder::dims_in_range;
use crate::decoder::has_class;
use crate::decoder::tensor_in_range;
use crate::decoder::DIM_LIMIT;
use crate::detection::Detection;
use crate::geometry::SCALE;
use crate::nms::nms_spec;
use crate::nms::suppress_frame;
use crate::region::centered_in;
use crate::region::region_filter;
use crate::region::spec_region_outcome;
use crate::region::RegionOutcome;
use crate::region::CLASS_EMPTY;
use crate::region::CLASS_REAL;
use crate::stabilizer::spec_emit;
use crate::stabilizer::spec_next;
use crate::stabilizer::spec_reset;
use crate::stabilizer::StabilizerState;
use crate::stabilizer::MARKER_FLOOR;

verus! {

/// Fixed parameters of the detector: the class count of the model, its input
/// resolution, and the confidence and suppression thresholds.
#[derive(Clone, Copy, Debug, PartialEq, Eq, Structural)]
pub struct DetectorConfig {
    pub num_classes: usize,
    pub input_w: u32,
    pub input_h: u32,
    pub conf_threshold: i64,
    pub nms_threshold: i64,
}

impl DetectorConfig {
    pub open spec fn well_formed(self) -> bool {
        &&& 3 <= self.num_classes <= 65536
        &&& 1 <= self.input_w <= DIM_LIMIT
        &&& 1 <= self.input_h <= DIM_LIMIT
        &&& 0 <= self.conf_threshold <= SCALE
        &&& 0 <= self.nms_threshold <= SCALE
    }

    /// Runtime counterpart of `well_formed`.
    pub fn check_well_formed(&self) -> (r: bool)
        ensures
            r == self.well_formed(),
    {
        3 <= self.num_classes && self.num_classes <= 65536 && 1 <= self.input_w && self.input_w
            <= DIM_LIMIT && 1 <= self.input_h && self.input_h <= DIM_LIMIT && 0
            <= self.conf_threshold && self.conf_threshold <= SCALE && 0 <= self.nms_threshold
            && self.nms_threshold <= SCALE
    }
}

/// What the cycle sends to the surrounding application, at most one per cycle.
#[derive(Clone, Copy, Debug, PartialEq, Eq, Structural)]
pub enum Signal {
    /// The stabilized marker counts rose: the new maxima.
    BulletFilling { max_real: usize, max_empty: usize },
    ScreenshotFailed,
    IdentifyFailed,
    ModelLoadFailed,
}

/// What one poll cycle amounted to.
#[derive(Clone, Copy, Debug, PartialEq, Eq, Structural)]
pub enum CycleOutcome {
    /// The stabilizer peak rose: the updated maxima to report.
    Reported { max_real: usize, max_empty: usize },
    /// A usable reading that did not rise above the session peak.
    Quiet,
    /// The frame held no single display box; the session was reset.
    NoDisplayRegion,
    /// Fewer than `MARKER_FLOOR` markers were visible; the session was reset.
    InsufficientMarkers,
    /// The screen could not be captured this cycle.
    CaptureFailure,
    /// The tensor was malformed or inference failed; the session was reset.
    IdentifyFailure,
    /// The model could not be loaded; detection was disabled.
    ModelFailure,
    /// Detection is disabled; nothing was attempted.
    Skipped,
}

/// The signal a cycle outcome sends: failures name their failure, a reported
/// rise carries the new maxima, everything else stays silent.
pub open spec fn spec_signal(outcome: CycleOutcome) -> Option<Signal> {
    match outcome {
        CycleOutcome::Reported { max_real, max_empty } => Some(
            (Signal::BulletFilling { max_real, max_empty }),
        ),
        CycleOutcome::CaptureFailure => Some(Signal::ScreenshotFailed),
        CycleOutcome::IdentifyFailure => Some(Signal::IdentifyFailed),
        CycleOutcome::ModelFailure => Some(Signal::ModelLoadFailed),
        CycleOutcome::Quiet => None,
        CycleOutcome::NoDisplayRegion => None,
        CycleOutcome::InsufficientMarkers => None,
        CycleOutcome::Skipped => None,
    }
}

/// Runtime counterpart of `spec_signal`.
pub fn signal_for_outcome(outcome: &CycleOutcome) -> (s: Option<Signal>)
    ensures
        s == spec_signal(*outcome),
{
    match *outcome {
        CycleOutcome::Reported { max_real, max_empty } => Some(
            Signal::BulletFilling { max_real, max_empty },
        ),
        CycleOutcome::CaptureFailure => Some(Signal::ScreenshotFailed),
        CycleOutcome::IdentifyFailure => Some(Signal::IdentifyFailed),
        CycleOutcome::ModelFailure => Some(Signal::ModelLoadFailed),
        CycleOutcome::Quiet => None,
        CycleOutcome::NoDisplayRegion => None,
        CycleOutcome::InsufficientMarkers => None,
        CycleOutcome::Skipped => None,
    }
}

/// Whether every row of the tensor holds `4 + num_classes` values.
pub open spec fn tensor_widths_ok(tensor: Seq<Seq<i64>>, num_classes: int) -> bool {
    forall|i: int| 0 <= i < tensor.len() ==> (#[trigger] tensor[i]).len() == 4 + num_classes
}

/// Bucket `c` after decoding and suppression.
pub open spec fn spec_cycle_bucket(
    tensor: Seq<Seq<i64>>,
    cfg: DetectorConfig,
    img_w: int,
    img_h: int,
    c: int,
) -> Seq<Detection> {
    nms_spec(
        decode_seq(
            tensor,
            img_w,
            img_h,
            cfg.input_w as int,
            cfg.input_h as int,
            cfg.conf_threshold as int,
            cfg.num_classes as int,
        ).filter(has_class(c)),
        cfg.nms_threshold as int,
    )
}

/// What the region filter finds in a well-shaped tensor's frame.
pub open spec fn spec_cycle_region(
    tensor: Seq<Seq<i64>>,
    cfg: DetectorConfig,
    img_w: int,
    img_h: int,
) -> RegionOutcome {
    let display = spec_cycle_bucket(tensor, cfg, img_w, img_h, cfg.num_classes as int - 1);
    if display.len() != 1 {
        RegionOutcome::NoDisplayRegion
    } else {
        let disp = display[0].bbox;
        (RegionOutcome::Counts {
            reals: spec_cycle_bucket(tensor, cfg, img_w, img_h, CLASS_REAL as int).filter(
                centered_in(disp),
            ).len() as usize,
            empties: spec_cycle_bucket(tensor, cfg, img_w, img_h, CLASS_EMPTY as int).filter(
                centered_in(disp),
            ).len() as usize,
        })
    }
}

/// The stabilizer state and outcome of one full cycle on one tensor.
pub open spec fn spec_cycle(
    st: StabilizerState,
    tensor: Seq<Seq<i64>>,
    cfg: DetectorConfig,
    img_w: int,
    img_h: int,
) -> (StabilizerState, CycleOutcome) {
    if !tensor_widths_ok(tensor, cfg.num_classes as int) {
        (spec_reset(), CycleOutcome::IdentifyFailure)
    } else {
        let ro = spec_cycle_region(tensor, cfg, img_w, img_h);
        let oc = match ro {
            RegionOutcome::NoDisplayRegion => CycleOutcome::NoDisplayRegion,
            RegionOutcome::Counts { reals, empties } => {
                if reals + empties < MARKER_FLOOR {
                    CycleOutcome::InsufficientMarkers
                } else {
                    match spec_emit(st, ro) {
                        Some(p) => (CycleOutcome::Reported { max_real: p.0, max_empty: p.1 }),
                        None => CycleOutcome::Quiet,
                    }
                }
            },
        };
        (spec_next(st, ro), oc)
    }
}

/// Runs decode, per-class suppression, the region filter and the stabilizer
/// on one tensor, advancing the session state and returning the cycle's
/// outcome.
pub fn process_frame(
    stab: &mut StabilizerState,
    rows: &Vec<Vec<i64>>,
    cfg: &DetectorConfig,
    img_w: u32,
    img_h: u32,
) -> (outcome: CycleOutcome)
    requires
        cfg.well_formed(),
        dims_in_range(img_w as int, img_h as int, cfg.input_w as int, cfg.input_h as int),
        tensor_in_range(rows.deep_view()),
    ensures
        (*final(stab), outcome) == spec_cycle(
            *old(stab),
            rows.deep_view(),
            *cfg,
            img_w as int,
            img_h as int,
        ),
{
    let ghost tensor = rows.deep_view();
    let ghost nc = cfg.num_classes as int;
    let decoded = decode(
        rows,
        cfg.num_classes,
        img_w,
        img_h,
        cfg.input_w,
        cfg.input_h,
        cfg.conf_threshold,
    );
    match decoded {
        Result::Err(_) => {
            proof {
                assert forall|ii: int| 0 <= ii < tensor.len() implies tensor[ii] == rows@[ii]@ by {}
                let i = choose|i: int|
                    0 <= i < rows@.len() && #[trigger] rows@[i]@.len() != 4 + cfg.num_classes;
                assert(tensor[i].len() != 4 + nc);
                assert(!tensor_widths_ok(tensor, nc));
            }
            stab.reset();
            CycleOutcome::IdentifyFailure
        },
        Result::Ok(frame) => {
            let suppressed = suppress_frame(&frame, cfg.nms_threshold);
            proof {
                assert(tensor_widths_ok(tensor, nc));
                assert forall|c: int| 0 <= c < nc implies #[trigger] suppressed.buckets@[c]@
                    == spec_cycle_bucket(tensor, *cfg, img_w as int, img_h as int, c) by {
                    assert(frame.buckets@[c]@ == decode_seq(
                        tensor,
                        img_w as int,
                        img_h as int,
                        cfg.input_w as int,
                        cfg.input_h as int,
                        cfg.conf_threshold as int,
                        nc,
                    ).filter(has_class(c)));
                };
                assert(spec_region_outcome(suppressed) == spec_cycle_region(
                    tensor,
                    *cfg,
                    img_w as int,
                    img_h as int,
                ));
            }
            let ro = region_filter(&suppressed);
            let emit = stab.step(ro);
            match ro {
                RegionOutcome::NoDisplayRegion => CycleOutcome::NoDisplayRegion,
                RegionOutcome::Counts { reals, empties } => {
                    if reals < MARKER_FLOOR && empties < MARKER_FLOOR && reals + empties
                        < MARKER_FLOOR {
                        CycleOutcome::InsufficientMarkers
                    } else {
                        match emit {
                            Some((r, e)) => CycleOutcome::Reported { max_real: r, max_empty: e },
                            None => CycleOutcome::Quiet,
                        }
                    }
                },
            }
        },
    }
}

} // verus!
