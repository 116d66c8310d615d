//! The poll loop's decisions: a state machine driven by one timer tick per
//! cycle. The surrounding application owns the timer and the collaborators
//! (capture provider, inference provider, signal sink); it performs each
//! returned action, reports what happened as the next event, and delivers the
//! returned signal. Handles are acquired lazily, cached, and re-acquired once
//! when a capture fails; a failed model load disables detection.

use vstd::prelude::*;

use crate::decoder::dims_in_range;
use crate::decoder::tensor_in_range;
use crate::pipeline::signal_for_outcome;
use crate::pipeline::process_frame;
use crate::pipeline::spec_cycle;
use crate::pipeline::spec_signal;
use crate::pipeline::DetectorConfig;
use crate::pipeline::Signal;
use crate::stabilizer::spec_reset;
use crate::stabilizer::StabilizerState;

verus! {

/// Where the machine stands within one tick's cycle.
#[derive(Clone, Copy, Debug, PartialEq, Eq, Structural)]
pub enum PollPhase {
    /// Between ticks.
    Waiting,
    LoadingModel,
    FindingWindow,
    Capturing,
    /// A capture failed: the cached handle may be stale, find the window anew.
    RefindingWindow,
    /// Second capture attempt, on the re-found window.
    RetryCapturing,
    Inferring,
}

/// What the application reports back after performing an action.
#[derive(Debug)]
pub enum PollEvent {
    /// The timer fired.
    Tick,
    ModelLoaded,
    ModelLoadFailed,
    WindowFound,
    WindowMissing,
    CaptureOk,
    CaptureFailed,
    /// Inference produced a tensor over an image of the given size.
    InferenceDone { rows: Vec<Vec<i64>>, img_w: u32, img_h: u32 },
    InferenceFailed,
}

/// What the application must do next.
#[derive(Clone, Copy, Debug, PartialEq, Eq, Structural)]
pub enum PollAction {
    /// Wait for the next tick.
    Sleep,
    LoadModel,
    FindWindow,
    Capture,
    Infer,
}

/// The whole state the poll loop owns across ticks.
#[derive(Clone, Copy, Debug, PartialEq, Eq, Structural)]
pub struct PollState {
    pub enabled: bool,
    pub has_model: bool,
    pub has_window: bool,
    pub phase: PollPhase,
    pub stab: StabilizerState,
}

pub open spec fn spec_initial_state() -> PollState {
    PollState {
        enabled: false,
        has_model: false,
        has_window: false,
        phase: PollPhase::Waiting,
        stab: spec_reset(),
    }
}

impl PollState {
    pub fn new() -> (s: Self)
        ensures
            s == spec_initial_state(),
    {
        PollState {
            enabled: false,
            has_model: false,
            has_window: false,
            phase: PollPhase::Waiting,
            stab: StabilizerState::new(),
        }
    }
}

/// The transition relation of the poll loop. A tick starts a cycle only while
/// detection is enabled; the model and the window handle are each acquired
/// once and kept; a failed capture re-finds the window and retries once; a
/// failed model load disables detection; a finished inference runs the
/// identification cycle. An event that does not belong to the current phase
/// abandons the cycle.
pub open spec fn spec_poll_step(s: PollState, e: PollEvent, cfg: DetectorConfig) -> (
    PollState,
    PollAction,
    Option<Signal>,
) {
    match (s.phase, e) {
        (PollPhase::Waiting, PollEvent::Tick) => {
            if !s.enabled {
                (s, PollAction::Sleep, None)
            } else if !s.has_model {
                (
                    (PollState { phase: PollPhase::LoadingModel, ..s }),
                    PollAction::LoadModel,
                    None,
                )
            } else if !s.has_window {
                (
                    (PollState { phase: PollPhase::FindingWindow, ..s }),
                    PollAction::FindWindow,
                    None,
                )
            } else {
                ((PollState { phase: PollPhase::Capturing, ..s }), PollAction::Capture, None)
            }
        },
        (PollPhase::LoadingModel, PollEvent::ModelLoaded) => {
            if !s.has_window {
                (
                    (PollState { has_model: true, phase: PollPhase::FindingWindow, ..s }),
                    PollAction::FindWindow,
                    None,
                )
            } else {
                (
                    (PollState { has_model: true, phase: PollPhase::Capturing, ..s }),
                    PollAction::Capture,
                    None,
                )
            }
        },
        (PollPhase::LoadingModel, PollEvent::ModelLoadFailed) => (
            (PollState { enabled: false, phase: PollPhase::Waiting, ..s }),
            PollAction::Sleep,
            Some(Signal::ModelLoadFailed),
        ),
        (PollPhase::FindingWindow, PollEvent::WindowFound) => (
            (PollState { has_window: true, phase: PollPhase::Capturing, ..s }),
            PollAction::Capture,
            None,
        ),
        (PollPhase::FindingWindow, PollEvent::WindowMissing) => (
            (PollState { has_window: false, phase: PollPhase::Waiting, ..s }),
            PollAction::Sleep,
            Some(Signal::ScreenshotFailed),
        ),
        (PollPhase::Capturing, PollEvent::CaptureOk) => (
            (PollState { phase: PollPhase::Inferring, ..s }),
            PollAction::Infer,
            None,
        ),
        (PollPhase::Capturing, PollEvent::CaptureFailed) => (
            (PollState { has_window: false, phase: PollPhase::RefindingWindow, ..s }),
            PollAction::FindWindow,
            None,
        ),
        (PollPhase::RefindingWindow, PollEvent::WindowFound) => (
            (PollState { has_window: true, phase: PollPhase::RetryCapturing, ..s }),
            PollAction::Capture,
            None,
        ),
        (PollPhase::RefindingWindow, PollEvent::WindowMissing) => (
            (PollState { has_window: false, phase: PollPhase::Waiting, ..s }),
            PollAction::Sleep,
            Some(Signal::ScreenshotFailed),
        ),
        (PollPhase::RetryCapturing, PollEvent::CaptureOk) => (
            (PollState { phase: PollPhase::Inferring, ..s }),
            PollAction::Infer,
            None,
        ),
        (PollPhase::RetryCapturing, PollEvent::CaptureFailed) => (
            (PollState { phase: PollPhase::Waiting, ..s }),
            PollAction::Sleep,
            Some(Signal::ScreenshotFailed),
        ),
        (PollPhase::Inferring, PollEvent::InferenceDone { rows, img_w, img_h }) => {
            let cycle = spec_cycle(s.stab, rows.deep_view(), cfg, img_w as int, img_h as int);
            (
                (PollState { phase: PollPhase::Waiting, stab: cycle.0, ..s }),
                PollAction::Sleep,
                spec_signal(cycle.1),
            )
        },
        (PollPhase::Inferring, PollEvent::InferenceFailed) => (
            (PollState { phase: PollPhase::Waiting, stab: spec_reset(), ..s }),
            PollAction::Sleep,
            Some(Signal::IdentifyFailed),
        ),
        _ => ((PollState { phase: PollPhase::Waiting, ..s }), PollAction::Sleep, None),
    }
}

/// One transition of the poll loop.
pub fn poll_step(state: &mut PollState, event: PollEvent, cfg: &DetectorConfig) -> (r: (
    PollAction,
    Option<Signal>,
))
    requires
        cfg.well_formed(),
        (match event {
            PollEvent::InferenceDone { rows, img_w, img_h } => old(state).phase
                == PollPhase::Inferring ==> dims_in_range(
                img_w as int,
                img_h as int,
                cfg.input_w as int,
                cfg.input_h as int,
            ) && tensor_in_range(rows.deep_view()),
            _ => true,
        }),
    ensures
        ({
            let step = spec_poll_step(*old(state), event, *cfg);
            *final(state) == step.0 && r.0 == step.1 && r.1 == step.2
        }),
{
    let phase = state.phase;
    match (phase, event) {
        (PollPhase::Waiting, PollEvent::Tick) => {
            if !state.enabled {
                (PollAction::Sleep, None)
            } else if !state.has_model {
                state.phase = PollPhase::LoadingModel;
                (PollAction::LoadModel, None)
            } else if !state.has_window {
                state.phase = PollPhase::FindingWindow;
                (PollAction::FindWindow, None)
            } else {
                state.phase = PollPhase::Capturing;
                (PollAction::Capture, None)
            }
        },
        (PollPhase::LoadingModel, PollEvent::ModelLoaded) => {
            state.has_model = true;
            if !state.has_window {
                state.phase = PollPhase::FindingWindow;
                (PollAction::FindWindow, None)
            } else {
                state.phase = PollPhase::Capturing;
                (PollAction::Capture, None)
            }
        },
        (PollPhase::LoadingModel, PollEvent::ModelLoadFailed) => {
            state.enabled = false;
            state.phase = PollPhase::Waiting;
            (PollAction::Sleep, Some(Signal::ModelLoadFailed))
        },
        (PollPhase::FindingWindow, PollEvent::WindowFound) => {
            state.has_window = true;
            state.phase = PollPhase::Capturing;
            (PollAction::Capture, None)
        },
        (PollPhase::FindingWindow, PollEvent::WindowMissing) => {
            state.has_window = false;
            state.phase = PollPhase::Waiting;
            (PollAction::Sleep, Some(Signal::ScreenshotFailed))
        },
        (PollPhase::Capturing, PollEvent::CaptureOk) => {
            state.phase = PollPhase::Inferring;
            (PollAction::Infer, None)
        },
        (PollPhase::Capturing, PollEvent::CaptureFailed) => {
            state.has_window = false;
            state.phase = PollPhase::RefindingWindow;
            (PollAction::FindWindow, None)
        },
        (PollPhase::RefindingWindow, PollEvent::WindowFound) => {
            state.has_window = true;
            state.phase = PollPhase::RetryCapturing;
            (PollAction::Capture, None)
        },
        (PollPhase::RefindingWindow, PollEvent::WindowMissing) => {
            state.has_window = false;
            state.phase = PollPhase::Waiting;
            (PollAction::Sleep, Some(Signal::ScreenshotFailed))
        },
        (PollPhase::RetryCapturing, PollEvent::CaptureOk) => {
            state.phase = PollPhase::Inferring;
            (PollAction::Infer, None)
        },
        (PollPhase::RetryCapturing, PollEvent::CaptureFailed) => {
            state.phase = PollPhase::Waiting;
            (PollAction::Sleep, Some(Signal::ScreenshotFailed))
        },
        (PollPhase::Inferring, PollEvent::InferenceDone { rows, img_w, img_h }) => {
            let outcome = process_frame(&mut state.stab, &rows, cfg, img_w, img_h);
            state.phase = PollPhase::Waiting;
            (PollAction::Sleep, signal_for_outcome(&outcome))
        },
        (PollPhase::Inferring, PollEvent::InferenceFailed) => {
            state.stab.reset();
            state.phase = PollPhase::Waiting;
            (PollAction::Sleep, Some(Signal::IdentifyFailed))
        },
        (_, _) => {
            state.phase = PollPhase::Waiting;
            (PollAction::Sleep, None)
        },
    }
}

/// Whether a window title names the game window the capture provider must
/// capture.
pub fn window_title_matches(title: &str) -> (r: bool)
    ensures
        r == (title@ == "Buckshot Roulette"@),
{
    let t = title.to_owned();
    let target = "Buckshot Roulette".to_owned();
    t == target
}

/// Enables or disables detection. Idempotent: re-enabling while already
/// enabled changes nothing. Enabling anew starts a fresh session — the
/// stabilizer resets — while cached handles are kept.
pub fn set_enabled(state: &mut PollState, enabled: bool)
    ensures
        *final(state) == (PollState {
            enabled,
            stab: if enabled && !old(state).enabled {
                spec_reset()
            } else {
                old(state).stab
            },
            ..*old(state)
        }),
{
    if enabled && !state.enabled {
        state.stab.reset();
    }
    state.enabled = enabled;
}

} // verus!
