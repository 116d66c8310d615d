use buckshot_roulette_projectile_recorder::detection::Detection;
use buckshot_roulette_projectile_recorder::detection::FrameResult;
use buckshot_roulette_projectile_recorder::geometry::BoundingBox;
use buckshot_roulette_projectile_recorder::region::region_filter;
use buckshot_roulette_projectile_recorder::region::RegionOutcome;
use buckshot_roulette_projectile_recorder::stabilizer::StabilizerState;

fn det(x1: i64, y1: i64, x2: i64, y2: i64, class_id: usize, conf: i64) -> Detection {
    Detection { bbox: BoundingBox { x1, y1, x2, y2 }, class_id, conf }
}

// A frame of four classes whose display bucket holds one box (0,0)-(100,100).
fn frame_with(reals: Vec<Detection>, empties: Vec<Detection>) -> FrameResult {
    FrameResult {
        buckets: vec![reals, empties, vec![], vec![det(0, 0, 100, 100, 3, 9000)]],
    }
}

#[test]
fn center_on_the_boundary_is_retained() {
    // centers on the right, left, top and bottom edges, one marker each
    let frame = frame_with(
        vec![
            det(95, 45, 105, 55, 0, 9000),  // center (100, 50)
            det(-5, 45, 5, 55, 0, 9000),    // center (0, 50)
            det(45, -5, 55, 5, 0, 9000),    // center (50, 0)
            det(45, 95, 55, 105, 0, 9000),  // center (50, 100)
        ],
        vec![],
    );
    assert_eq!(region_filter(&frame), RegionOutcome::Counts { reals: 4, empties: 0 });
}

#[test]
fn center_one_unit_outside_is_excluded() {
    // the same four edges, each center pushed one unit outward; the doubled
    // comparison even sees a half-unit overshoot
    let frame = frame_with(
        vec![
            det(97, 45, 107, 55, 0, 9000),   // center (102, 50)
            det(-7, 45, 5, 55, 0, 9000),     // center (-1, 50)
            det(45, -7, 55, 5, 0, 9000),     // center (50, -1)
            det(45, 97, 55, 107, 0, 9000),   // center (50, 102)
            det(96, 45, 107, 55, 0, 9000),   // center (101.5, 50)
        ],
        vec![],
    );
    assert_eq!(region_filter(&frame), RegionOutcome::Counts { reals: 0, empties: 0 });
}

#[test]
fn empty_markers_are_filtered_by_the_same_rule() {
    let frame = frame_with(
        vec![],
        vec![det(10, 10, 20, 20, 1, 9000), det(190, 190, 220, 220, 1, 9000)],
    );
    assert_eq!(region_filter(&frame), RegionOutcome::Counts { reals: 0, empties: 1 });
}

#[test]
fn no_display_box_means_no_region() {
    let frame = FrameResult {
        buckets: vec![vec![det(10, 10, 20, 20, 0, 9000)], vec![], vec![], vec![]],
    };
    assert_eq!(region_filter(&frame), RegionOutcome::NoDisplayRegion);
}

#[test]
fn two_display_boxes_mean_no_region() {
    let frame = FrameResult {
        buckets: vec![
            vec![],
            vec![],
            vec![],
            vec![det(0, 0, 100, 100, 3, 9000), det(0, 0, 90, 90, 3, 8000)],
        ],
    };
    assert_eq!(region_filter(&frame), RegionOutcome::NoDisplayRegion);
}

#[test]
fn stabilizer_reports_peaks_and_resets_on_lost_region() {
    // cycles: counts (1,1), (3,1), (2,1), then no region
    let mut st = StabilizerState::new();
    let e1 = st.step(RegionOutcome::Counts { reals: 1, empties: 1 });
    assert_eq!(e1, Some((1, 1)));
    assert_eq!(st, StabilizerState { max_real: 1, max_empty: 1 });
    let e2 = st.step(RegionOutcome::Counts { reals: 3, empties: 1 });
    assert_eq!(e2, Some((3, 1)));
    assert_eq!(st, StabilizerState { max_real: 3, max_empty: 1 });
    let e3 = st.step(RegionOutcome::Counts { reals: 2, empties: 1 });
    assert_eq!(e3, None);
    assert_eq!(st, StabilizerState { max_real: 3, max_empty: 1 });
    let e4 = st.step(RegionOutcome::NoDisplayRegion);
    assert_eq!(e4, None);
    assert_eq!(st, StabilizerState { max_real: 0, max_empty: 0 });
}

#[test]
fn fewer_than_two_markers_reset_without_reporting() {
    let mut st = StabilizerState::new();
    let e = st.step(RegionOutcome::Counts { reals: 1, empties: 0 });
    assert_eq!(e, None);
    assert_eq!(st, StabilizerState { max_real: 0, max_empty: 0 });

    // the floor also tears down an established session
    let mut st = StabilizerState { max_real: 3, max_empty: 1 };
    let e = st.step(RegionOutcome::Counts { reals: 1, empties: 0 });
    assert_eq!(e, None);
    assert_eq!(st, StabilizerState { max_real: 0, max_empty: 0 });
}

#[test]
fn two_markers_inside_the_display_box_report_together() {
    // two real boxes inside the display box, three empty boxes outside
    let frame = frame_with(
        vec![det(10, 10, 20, 20, 0, 9000), det(60, 60, 80, 80, 0, 8500)],
        vec![
            det(150, 150, 160, 160, 1, 9000),
            det(200, 10, 220, 30, 1, 8000),
            det(-50, -50, -10, -10, 1, 7000),
        ],
    );
    let counts = region_filter(&frame);
    assert_eq!(counts, RegionOutcome::Counts { reals: 2, empties: 0 });
    let mut st = StabilizerState::new();
    let emitted = st.step(counts);
    assert_eq!(emitted, Some((2, 0)));
}
