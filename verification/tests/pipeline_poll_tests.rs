use buckshot_roulette_projectile_recorder::pipeline::process_frame;
use buckshot_roulette_projectile_recorder::pipeline::signal_for_outcome;
use buckshot_roulette_projectile_recorder::pipeline::CycleOutcome;
use buckshot_roulette_projectile_recorder::pipeline::DetectorConfig;
use buckshot_roulette_projectile_recorder::pipeline::Signal;
use buckshot_roulette_projectile_recorder::poll::poll_step;
use buckshot_roulette_projectile_recorder::poll::set_enabled;
use buckshot_roulette_projectile_recorder::poll::window_title_matches;
use buckshot_roulette_projectile_recorder::poll::PollAction;
use buckshot_roulette_projectile_recorder::poll::PollEvent;
use buckshot_roulette_projectile_recorder::poll::PollPhase;
use buckshot_roulette_projectile_recorder::poll::PollState;
use buckshot_roulette_projectile_recorder::stabilizer::StabilizerState;

fn config() -> DetectorConfig {
    DetectorConfig {
        num_classes: 4,
        input_w: 640,
        input_h: 640,
        conf_threshold: 2500,
        nms_threshold: 7000,
    }
}

// Rows over a 640 x 640 input and image: one display box (100,100)-(500,500),
// two real markers inside it, one empty marker outside it.
fn good_tensor() -> Vec<Vec<i64>> {
    vec![
        vec![300, 300, 400, 400, 0, 0, 0, 9000],
        vec![200, 200, 50, 60, 9000, 0, 0, 0],
        vec![400, 400, 50, 60, 8500, 0, 0, 0],
        vec![550, 550, 20, 20, 0, 8000, 0, 0],
    ]
}

#[test]
fn a_good_frame_reports_the_filtered_counts() {
    let cfg = config();
    let mut stab = StabilizerState::new();
    let outcome = process_frame(&mut stab, &good_tensor(), &cfg, 640, 640);
    assert_eq!(outcome, CycleOutcome::Reported { max_real: 2, max_empty: 0 });
    assert_eq!(stab, StabilizerState { max_real: 2, max_empty: 0 });
}

#[test]
fn a_repeated_frame_stays_quiet() {
    let cfg = config();
    let mut stab = StabilizerState::new();
    let first = process_frame(&mut stab, &good_tensor(), &cfg, 640, 640);
    assert_eq!(first, CycleOutcome::Reported { max_real: 2, max_empty: 0 });
    let second = process_frame(&mut stab, &good_tensor(), &cfg, 640, 640);
    assert_eq!(second, CycleOutcome::Quiet);
    assert_eq!(stab, StabilizerState { max_real: 2, max_empty: 0 });
}

#[test]
fn a_malformed_tensor_fails_identification_and_resets() {
    let cfg = config();
    let mut stab = StabilizerState { max_real: 2, max_empty: 1 };
    let rows = vec![vec![300, 300, 400, 400, 0, 0, 0]];
    let outcome = process_frame(&mut stab, &rows, &cfg, 640, 640);
    assert_eq!(outcome, CycleOutcome::IdentifyFailure);
    assert_eq!(stab, StabilizerState { max_real: 0, max_empty: 0 });
}

#[test]
fn a_frame_without_a_display_box_resets_silently() {
    let cfg = config();
    let mut stab = StabilizerState { max_real: 2, max_empty: 1 };
    let rows = vec![vec![200, 200, 50, 60, 9000, 0, 0, 0]];
    let outcome = process_frame(&mut stab, &rows, &cfg, 640, 640);
    assert_eq!(outcome, CycleOutcome::NoDisplayRegion);
    assert_eq!(stab, StabilizerState { max_real: 0, max_empty: 0 });
    assert_eq!(signal_for_outcome(&outcome), None);
}

#[test]
fn a_single_marker_is_below_the_floor() {
    let cfg = config();
    let mut stab = StabilizerState { max_real: 2, max_empty: 1 };
    let rows = vec![
        vec![300, 300, 400, 400, 0, 0, 0, 9000],
        vec![200, 200, 50, 60, 9000, 0, 0, 0],
    ];
    let outcome = process_frame(&mut stab, &rows, &cfg, 640, 640);
    assert_eq!(outcome, CycleOutcome::InsufficientMarkers);
    assert_eq!(stab, StabilizerState { max_real: 0, max_empty: 0 });
    assert_eq!(signal_for_outcome(&outcome), None);
}

#[test]
fn outcomes_map_to_their_signals() {
    assert_eq!(
        signal_for_outcome(&CycleOutcome::Reported { max_real: 3, max_empty: 1 }),
        Some(Signal::BulletFilling { max_real: 3, max_empty: 1 })
    );
    assert_eq!(
        signal_for_outcome(&CycleOutcome::CaptureFailure),
        Some(Signal::ScreenshotFailed)
    );
    assert_eq!(
        signal_for_outcome(&CycleOutcome::IdentifyFailure),
        Some(Signal::IdentifyFailed)
    );
    assert_eq!(
        signal_for_outcome(&CycleOutcome::ModelFailure),
        Some(Signal::ModelLoadFailed)
    );
    assert_eq!(signal_for_outcome(&CycleOutcome::Quiet), None);
    assert_eq!(signal_for_outcome(&CycleOutcome::NoDisplayRegion), None);
    assert_eq!(signal_for_outcome(&CycleOutcome::InsufficientMarkers), None);
    assert_eq!(signal_for_outcome(&CycleOutcome::Skipped), None);
}

#[test]
fn a_disabled_detector_sleeps_through_ticks() {
    let cfg = config();
    let mut st = PollState::new();
    let (action, signal) = poll_step(&mut st, PollEvent::Tick, &cfg);
    assert_eq!(action, PollAction::Sleep);
    assert_eq!(signal, None);
    assert_eq!(st.phase, PollPhase::Waiting);
}

#[test]
fn one_full_cycle_from_tick_to_report() {
    let cfg = config();
    let mut st = PollState::new();
    set_enabled(&mut st, true);

    let r = poll_step(&mut st, PollEvent::Tick, &cfg);
    assert_eq!(r, (PollAction::LoadModel, None));
    let r = poll_step(&mut st, PollEvent::ModelLoaded, &cfg);
    assert_eq!(r, (PollAction::FindWindow, None));
    let r = poll_step(&mut st, PollEvent::WindowFound, &cfg);
    assert_eq!(r, (PollAction::Capture, None));
    let r = poll_step(&mut st, PollEvent::CaptureOk, &cfg);
    assert_eq!(r, (PollAction::Infer, None));
    let done = PollEvent::InferenceDone { rows: good_tensor(), img_w: 640, img_h: 640 };
    let r = poll_step(&mut st, done, &cfg);
    assert_eq!(
        r,
        (PollAction::Sleep, Some(Signal::BulletFilling { max_real: 2, max_empty: 0 }))
    );
    assert_eq!(st.phase, PollPhase::Waiting);
    assert!(st.has_model && st.has_window && st.enabled);
    assert_eq!(st.stab, StabilizerState { max_real: 2, max_empty: 0 });

    // the next tick reuses both cached handles
    let r = poll_step(&mut st, PollEvent::Tick, &cfg);
    assert_eq!(r, (PollAction::Capture, None));
}

#[test]
fn a_failed_model_load_disables_detection() {
    let cfg = config();
    let mut st = PollState::new();
    set_enabled(&mut st, true);
    poll_step(&mut st, PollEvent::Tick, &cfg);
    let r = poll_step(&mut st, PollEvent::ModelLoadFailed, &cfg);
    assert_eq!(r, (PollAction::Sleep, Some(Signal::ModelLoadFailed)));
    assert!(!st.enabled);
    let r = poll_step(&mut st, PollEvent::Tick, &cfg);
    assert_eq!(r, (PollAction::Sleep, None));
}

#[test]
fn a_failed_capture_refinds_the_window_and_retries_once() {
    let cfg = config();
    let mut st = PollState {
        enabled: true,
        has_model: true,
        has_window: true,
        phase: PollPhase::Waiting,
        stab: StabilizerState::new(),
    };
    let r = poll_step(&mut st, PollEvent::Tick, &cfg);
    assert_eq!(r, (PollAction::Capture, None));
    let r = poll_step(&mut st, PollEvent::CaptureFailed, &cfg);
    assert_eq!(r, (PollAction::FindWindow, None));
    assert!(!st.has_window);
    let r = poll_step(&mut st, PollEvent::WindowFound, &cfg);
    assert_eq!(r, (PollAction::Capture, None));
    assert!(st.has_window);
    let r = poll_step(&mut st, PollEvent::CaptureFailed, &cfg);
    assert_eq!(r, (PollAction::Sleep, Some(Signal::ScreenshotFailed)));
    assert_eq!(st.phase, PollPhase::Waiting);
}

#[test]
fn a_missing_window_signals_a_capture_failure() {
    let cfg = config();
    let mut st = PollState {
        enabled: true,
        has_model: true,
        has_window: false,
        phase: PollPhase::Waiting,
        stab: StabilizerState::new(),
    };
    let r = poll_step(&mut st, PollEvent::Tick, &cfg);
    assert_eq!(r, (PollAction::FindWindow, None));
    let r = poll_step(&mut st, PollEvent::WindowMissing, &cfg);
    assert_eq!(r, (PollAction::Sleep, Some(Signal::ScreenshotFailed)));
}

#[test]
fn a_failed_inference_signals_and_resets_the_session() {
    let cfg = config();
    let mut st = PollState {
        enabled: true,
        has_model: true,
        has_window: true,
        phase: PollPhase::Inferring,
        stab: StabilizerState { max_real: 3, max_empty: 1 },
    };
    let r = poll_step(&mut st, PollEvent::InferenceFailed, &cfg);
    assert_eq!(r, (PollAction::Sleep, Some(Signal::IdentifyFailed)));
    assert_eq!(st.stab, StabilizerState { max_real: 0, max_empty: 0 });
}

#[test]
fn re_enabling_starts_a_new_session_but_keeps_the_handles() {
    let mut st = PollState {
        enabled: true,
        has_model: true,
        has_window: true,
        phase: PollPhase::Waiting,
        stab: StabilizerState { max_real: 3, max_empty: 1 },
    };
    set_enabled(&mut st, true);
    assert_eq!(st.stab, StabilizerState { max_real: 3, max_empty: 1 });
    set_enabled(&mut st, false);
    assert_eq!(st.stab, StabilizerState { max_real: 3, max_empty: 1 });
    set_enabled(&mut st, true);
    assert_eq!(st.stab, StabilizerState { max_real: 0, max_empty: 0 });
    assert!(st.has_model && st.has_window);
}

#[test]
fn only_the_game_window_title_matches() {
    assert!(window_title_matches("Buckshot Roulette"));
    assert!(!window_title_matches("Buckshot  Roulette"));
    assert!(!window_title_matches("buckshot roulette"));
    assert!(!window_title_matches(""));
}
