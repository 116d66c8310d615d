use buckshot_roulette_projectile_recorder::decoder::check_dims_in_range;
use buckshot_roulette_projectile_recorder::decoder::check_tensor_in_range;
use buckshot_roulette_projectile_recorder::decoder::decode;
use buckshot_roulette_projectile_recorder::decoder::DecodeError;
use buckshot_roulette_projectile_recorder::detection::Detection;
use buckshot_roulette_projectile_recorder::geometry::BoundingBox;

// One row: center (100, 100), size 50 x 60, class scores as given, over a
// 640 x 640 model input.
fn row(scores: &[i64]) -> Vec<i64> {
    let mut r = vec![100, 100, 50, 60];
    r.extend_from_slice(scores);
    r
}

#[test]
fn high_scoring_row_yields_one_detection() {
    // scores 0.9 and 0.1 against a threshold of 0.25
    let rows = vec![row(&[9000, 1000])];
    let f = decode(&rows, 2, 640, 640, 640, 640, 2500).unwrap();
    assert_eq!(f.buckets.len(), 2);
    assert_eq!(f.buckets[0].len(), 1);
    assert_eq!(f.buckets[1].len(), 0);
    let d = f.buckets[0][0];
    assert_eq!(d.class_id, 0);
    assert_eq!(d.conf, 9000);
    assert_eq!(d.bbox, BoundingBox { x1: 75, y1: 70, x2: 125, y2: 130 });
}

#[test]
fn low_scoring_row_yields_no_detection() {
    // best score 0.2 against a threshold of 0.25
    let rows = vec![row(&[2000, 1000])];
    let f = decode(&rows, 2, 640, 640, 640, 640, 2500).unwrap();
    assert_eq!(f.buckets[0].len(), 0);
    assert_eq!(f.buckets[1].len(), 0);
}

#[test]
fn score_equal_to_threshold_is_discarded() {
    let rows = vec![row(&[2500, 1000])];
    let f = decode(&rows, 2, 640, 640, 640, 640, 2500).unwrap();
    assert_eq!(f.buckets[0].len(), 0);
}

#[test]
fn zero_score_is_discarded_even_at_zero_threshold() {
    let rows = vec![row(&[0, 0])];
    let f = decode(&rows, 2, 640, 640, 640, 640, 0).unwrap();
    assert_eq!(f.buckets[0].len(), 0);
    assert_eq!(f.buckets[1].len(), 0);
}

#[test]
fn tied_scores_resolve_to_the_lowest_class() {
    let rows = vec![row(&[5000, 5000, 3000])];
    let f = decode(&rows, 3, 640, 640, 640, 640, 2500).unwrap();
    assert_eq!(f.buckets[0].len(), 1);
    assert_eq!(f.buckets[0][0].class_id, 0);
    assert_eq!(f.buckets[1].len(), 0);
    assert_eq!(f.buckets[2].len(), 0);
}

#[test]
fn boxes_scale_by_independent_ratios() {
    // image 1280 x 960 over a 640 x 640 input: x scales by 2, y by 1.5
    let rows = vec![vec![320, 320, 100, 100, 9000]];
    let f = decode(&rows, 1, 1280, 960, 640, 640, 2500).unwrap();
    let d = f.buckets[0][0];
    assert_eq!(d.bbox, BoundingBox { x1: 540, y1: 405, x2: 740, y2: 555 });
}

#[test]
fn degenerate_boxes_are_discarded() {
    // zero width; and width one, which collapses after halving
    let rows = vec![vec![100, 100, 0, 60, 9000], vec![100, 100, 1, 60, 9000]];
    let f = decode(&rows, 1, 640, 640, 640, 640, 2500).unwrap();
    assert_eq!(f.buckets[0].len(), 0);
}

#[test]
fn detections_land_in_their_class_bucket_in_row_order() {
    let rows = vec![
        row(&[9000, 1000, 0]),
        row(&[1000, 8000, 0]),
        vec![200, 200, 50, 60, 8500, 0, 0],
        row(&[0, 0, 7000]),
    ];
    let f = decode(&rows, 3, 640, 640, 640, 640, 2500).unwrap();
    assert_eq!(f.buckets[0].len(), 2);
    assert_eq!(f.buckets[0][0].conf, 9000);
    assert_eq!(f.buckets[0][1].conf, 8500);
    assert_eq!(f.buckets[0][1].bbox, BoundingBox { x1: 175, y1: 170, x2: 225, y2: 230 });
    assert_eq!(f.buckets[1].len(), 1);
    assert_eq!(f.buckets[1][0].conf, 8000);
    assert_eq!(f.buckets[2].len(), 1);
    assert_eq!(f.buckets[2][0].conf, 7000);
}

#[test]
fn wrong_row_width_fails_the_decode() {
    let rows = vec![row(&[9000, 1000]), vec![100, 100, 50, 60, 9000]];
    let r = decode(&rows, 2, 640, 640, 640, 640, 2500);
    assert!(matches!(r, Err(DecodeError::BadRowWidth)));
}

#[test]
fn every_decoded_detection_is_well_formed() {
    let rows = vec![row(&[9000, 1000]), vec![5, 5, 3, 3, 0, 8000]];
    let f = decode(&rows, 2, 1280, 960, 640, 640, 2500).unwrap();
    assert!(f.check_well_formed());
    for bucket in &f.buckets {
        for d in bucket {
            assert!(d.check_valid());
        }
    }
}

#[test]
fn range_checks_accept_the_usual_shapes() {
    assert!(check_dims_in_range(1920, 1080, 640, 640));
    assert!(!check_dims_in_range(0, 1080, 640, 640));
    assert!(!check_dims_in_range(1920, 1080, 640, 0));
    assert!(!check_dims_in_range(65536, 1080, 1, 640));
    let good = vec![row(&[9000, 1000])];
    assert!(check_tensor_in_range(&good));
    let coord_too_big = vec![vec![100000, 100, 50, 60, 9000, 1000]];
    assert!(!check_tensor_in_range(&coord_too_big));
    let score_too_big = vec![row(&[10001, 1000])];
    assert!(!check_tensor_in_range(&score_too_big));
}

#[test]
fn detection_equality_is_by_fields() {
    let a = Detection { bbox: BoundingBox { x1: 0, y1: 0, x2: 1, y2: 1 }, class_id: 0, conf: 5 };
    let b = Detection { bbox: BoundingBox { x1: 0, y1: 0, x2: 1, y2: 1 }, class_id: 0, conf: 5 };
    assert_eq!(a, b);
}
