//! Decoding of one raw output tensor into per-class detection buckets.
//!
//! A tensor is `num_predictions` rows of `4 + num_classes` fixed-point
//! values: center-x, center-y, width and height in model input-resolution
//! pixels, then one confidence score per class. A row survives when its best
//! score beats the confidence threshold and is positive; its box is put into
//! corner form and scaled to the original image resolution by independent
//! width and height ratios, and degenerate boxes are discarded.

use vstd::arithmetic::div_mod::lemma_div_is_ordered;
use vstd::arithmetic::div_mod::lemma_div_multiples_vanish;
use vstd::arithmetic::div_mod::lemma_div_pos_is_pos;
use vstd::prelude::*;

use crate::detection::Detection;
use crate::detection::FrameResult;
use crate::geometry::BoundingBox;
use crate::geometry::SCALE;

verus! {

/// Largest magnitude of a raw tensor value the decoder accepts.
pub const RAW_LIMIT: i64 = 65536;

/// Largest image or model-input dimension the decoder accepts.
pub const DIM_LIMIT: u32 = 65536;

// The image may be at most 64 times the model input resolution in either
// dimension; this keeps scaled coordinates within `COORD_LIMIT`.

/// The tensor is malformed: some row does not hold `4 + num_classes` values.
#[derive(Clone, Copy, Debug, PartialEq, Eq, Structural)]
pub enum DecodeError {
    BadRowWidth,
}

/// Scaling by the ratio `num / den`, rounding the magnitude down.
pub open spec fn scale_value(v: int, num: int, den: int) -> int {
    if v >= 0 {
        (v * num) / den
    } else {
        -((-v * num) / den)
    }
}

/// Index of the best class score of a row among indices `4 .. n`: a
/// left-to-right scan that replaces its candidate only on a strictly greater
/// score, so ties resolve to the lowest class index.
pub open spec fn best_score_index(row: Seq<i64>, n: int) -> int
    decreases n,
{
    if n <= 5 {
        4
    } else {
        let r = best_score_index(row, n - 1);
        if row[n - 1] > row[r] {
            n - 1
        } else {
            r
        }
    }
}

pub open spec fn row_class(row: Seq<i64>) -> int {
    best_score_index(row, row.len() as int) - 4
}

pub open spec fn row_conf(row: Seq<i64>) -> i64 {
    row[best_score_index(row, row.len() as int)]
}

pub open spec fn row_box_x1(row: Seq<i64>, img_w: int, in_w: int) -> int {
    scale_value(row[0] - row[2] / 2, img_w, in_w)
}

pub open spec fn row_box_x2(row: Seq<i64>, img_w: int, in_w: int) -> int {
    scale_value(row[0] + row[2] / 2, img_w, in_w)
}

pub open spec fn row_box_y1(row: Seq<i64>, img_h: int, in_h: int) -> int {
    scale_value(row[1] - row[3] / 2, img_h, in_h)
}

pub open spec fn row_box_y2(row: Seq<i64>, img_h: int, in_h: int) -> int {
    scale_value(row[1] + row[3] / 2, img_h, in_h)
}

/// Whether a row survives decoding: right width, best score above the
/// threshold and positive, positive raw width and height, and a box that is
/// still non-degenerate after scaling.
pub open spec fn row_kept(
    row: Seq<i64>,
    img_w: int,
    img_h: int,
    in_w: int,
    in_h: int,
    conf_t: int,
    num_classes: int,
) -> bool {
    &&& row.len() == 4 + num_classes
    &&& row_conf(row) > conf_t
    &&& row_conf(row) > 0
    &&& row[2] > 0
    &&& row[3] > 0
    &&& row_box_x1(row, img_w, in_w) < row_box_x2(row, img_w, in_w)
    &&& row_box_y1(row, img_h, in_h) < row_box_y2(row, img_h, in_h)
}

/// The detection a surviving row decodes to.
pub open spec fn decoded_detection(
    row: Seq<i64>,
    img_w: int,
    img_h: int,
    in_w: int,
    in_h: int,
) -> Detection {
    Detection {
        bbox: BoundingBox {
            x1: row_box_x1(row, img_w, in_w) as i64,
            y1: row_box_y1(row, img_h, in_h) as i64,
            x2: row_box_x2(row, img_w, in_w) as i64,
            y2: row_box_y2(row, img_h, in_h) as i64,
        },
        class_id: row_class(row) as usize,
        conf: row_conf(row),
    }
}

/// The detections of class `c`.
pub open spec fn has_class(c: int) -> spec_fn(Detection) -> bool {
    |d: Detection| d.class_id == c
}

/// All surviving detections of a tensor, in row order.
pub open spec fn decode_seq(
    rows: Seq<Seq<i64>>,
    img_w: int,
    img_h: int,
    in_w: int,
    in_h: int,
    conf_t: int,
    num_classes: int,
) -> Seq<Detection>
    decreases rows.len(),
{
    if rows.len() == 0 {
        Seq::empty()
    } else {
        let prefix = decode_seq(rows.drop_last(), img_w, img_h, in_w, in_h, conf_t, num_classes);
        if row_kept(rows.last(), img_w, img_h, in_w, in_h, conf_t, num_classes) {
            prefix.push(decoded_detection(rows.last(), img_w, img_h, in_w, in_h))
        } else {
            prefix
        }
    }
}

pub open spec fn row_in_range(row: Seq<i64>) -> bool {
    forall|j: int|
        0 <= j < row.len() ==> -RAW_LIMIT <= #[trigger] row[j] <= RAW_LIMIT && (4 <= j ==> row[j]
            <= SCALE)
}

pub open spec fn tensor_in_range(rows: Seq<Seq<i64>>) -> bool {
    forall|i: int| 0 <= i < rows.len() ==> row_in_range(#[trigger] rows[i])
}

pub open spec fn dims_in_range(img_w: int, img_h: int, in_w: int, in_h: int) -> bool {
    &&& 1 <= img_w <= DIM_LIMIT
    &&& 1 <= img_h <= DIM_LIMIT
    &&& 1 <= in_w <= DIM_LIMIT
    &&& 1 <= in_h <= DIM_LIMIT
    &&& img_w <= 64 * in_w
    &&& img_h <= 64 * in_h
}

/// Runtime counterpart of `tensor_in_range`.
pub fn check_tensor_in_range(rows: &Vec<Vec<i64>>) -> (r: bool)
    ensures
        r == tensor_in_range(rows.deep_view()),
{
    let ghost tensor = rows.deep_view();
    let mut i: usize = 0;
    while i < rows.len()
        invariant
            i <= rows@.len(),
            tensor == rows.deep_view(),
            tensor.len() == rows@.len(),
            forall|ii: int| 0 <= ii < tensor.len() ==> tensor[ii] == rows@[ii]@,
            forall|ii: int| 0 <= ii < i ==> row_in_range(#[trigger] tensor[ii]),
        decreases rows@.len() - i,
    {
        let row = &rows[i];
        let mut j: usize = 0;
        while j < row.len()
            invariant
                j <= row@.len(),
                row@ == tensor[i as int],
                i < tensor.len(),
                tensor == rows.deep_view(),
                forall|jj: int|
                    0 <= jj < j ==> -RAW_LIMIT <= #[trigger] row@[jj] <= RAW_LIMIT && (4 <= jj
                        ==> row@[jj] <= SCALE),
            decreases row@.len() - j,
        {
            let v = row[j];
            if v < -RAW_LIMIT || v > RAW_LIMIT || (j >= 4 && v > SCALE) {
                proof {
                    assert(!row_in_range(tensor[i as int]));
                }
                return false;
            }
            j += 1;
        }
        i += 1;
    }
    true
}

/// Runtime counterpart of `dims_in_range`.
pub fn check_dims_in_range(img_w: u32, img_h: u32, in_w: u32, in_h: u32) -> (r: bool)
    ensures
        r == dims_in_range(img_w as int, img_h as int, in_w as int, in_h as int),
{
    1 <= img_w && img_w <= DIM_LIMIT && 1 <= img_h && img_h <= DIM_LIMIT && 1 <= in_w && in_w
        <= DIM_LIMIT && 1 <= in_h && in_h <= DIM_LIMIT && img_w as u64 <= 64u64 * (in_w as u64)
        && img_h as u64 <= 64u64 * (in_h as u64)
}

/// Bounds on a scaled coordinate: a corner at most `RAW_LIMIT * 3 / 2` from
/// the origin, scaled up by at most `UPSCALE_LIMIT`, stays within
/// `COORD_LIMIT`.
proof fn lemma_scale_bound(v: int, num: int, den: int)
    requires
        -98304 <= v <= 98304,
        1 <= den,
        0 <= num <= 64 * den,
    ensures
        -6291456 <= scale_value(v, num, den) <= 6291456,
{
    let m = if v >= 0 {
        v
    } else {
        -v
    };
    assert(m * num <= 6291456 * den) by (nonlinear_arith)
        requires
            0 <= m <= 98304,
            0 <= num <= 64 * den,
            1 <= den,
    ;
    lemma_div_pos_is_pos(m * num, den);
    lemma_div_is_ordered(m * num, 6291456 * den, den);
    lemma_div_multiples_vanish(6291456, den);
    assert(den * 6291456 == 6291456 * den);
    assert(0 <= m * num / den <= 6291456);
}

fn scale_coord(v: i64, num: u32, den: u32) -> (r: i64)
    requires
        -98304 <= v <= 98304,
        1 <= num <= DIM_LIMIT,
        1 <= den <= DIM_LIMIT,
        num <= 64 * den,
    ensures
        r == scale_value(v as int, num as int, den as int),
        -6291456 <= r <= 6291456,
{
    proof {
        lemma_scale_bound(v as int, num as int, den as int);
    }
    if v >= 0 {
        proof {
            assert(0 <= (v as u64) as int * ((num as u64) as int) <= 98304 * 65536)
                by (nonlinear_arith)
                requires
                    0 <= (v as u64) as int <= 98304,
                    0 <= (num as u64) as int <= 65536,
            ;
        }
        let q = (v as u64) * (num as u64) / (den as u64);
        q as i64
    } else {
        proof {
            assert(0 <= ((-v) as u64) as int * ((num as u64) as int) <= 98304 * 65536)
                by (nonlinear_arith)
                requires
                    0 <= ((-v) as u64) as int <= 98304,
                    0 <= (num as u64) as int <= 65536,
            ;
        }
        let q = ((-v) as u64) * (num as u64) / (den as u64);
        -(q as i64)
    }
}

/// Decodes one tensor into a `FrameResult`: bucket `c` holds, in row order,
/// the surviving detections whose best class is `c`. Fails exactly when some
/// row does not hold `4 + num_classes` values.
pub fn decode(
    rows: &Vec<Vec<i64>>,
    num_classes: usize,
    img_w: u32,
    img_h: u32,
    input_w: u32,
    input_h: u32,
    conf_threshold: i64,
) -> (r: Result<FrameResult, DecodeError>)
    requires
        1 <= num_classes <= 65536,
        dims_in_range(img_w as int, img_h as int, input_w as int, input_h as int),
        0 <= conf_threshold <= SCALE,
        tensor_in_range(rows.deep_view()),
    ensures
        match r {
            Ok(f) => {
                &&& forall|i: int|
                    0 <= i < rows@.len() ==> #[trigger] rows@[i]@.len() == 4 + num_classes
                &&& f.buckets@.len() == num_classes
                &&& forall|c: int|
                    0 <= c < num_classes ==> #[trigger] f.buckets@[c]@ == decode_seq(
                        rows.deep_view(),
                        img_w as int,
                        img_h as int,
                        input_w as int,
                        input_h as int,
                        conf_threshold as int,
                        num_classes as int,
                    ).filter(has_class(c))
                &&& f.well_formed()
            },
            Err(e) => {
                &&& e == DecodeError::BadRowWidth
                &&& exists|i: int|
                    0 <= i < rows@.len() && #[trigger] rows@[i]@.len() != 4 + num_classes
            },
        },
{
    let ghost tensor = rows.deep_view();
    let ghost iw = img_w as int;
    let ghost ih = img_h as int;
    let ghost mw = input_w as int;
    let ghost mh = input_h as int;
    let ghost ct = conf_threshold as int;
    let ghost nc = num_classes as int;
    proof {
        assert forall|ii: int| 0 <= ii < tensor.len() implies tensor[ii] == rows@[ii]@ by {}
    }
    let width = 4 + num_classes;

    let mut i: usize = 0;
    while i < rows.len()
        invariant
            i <= rows@.len(),
            width == 4 + num_classes,
            forall|ii: int| 0 <= ii < i ==> #[trigger] rows@[ii]@.len() == 4 + num_classes,
        decreases rows@.len() - i,
    {
        if rows[i].len() != width {
            return Err(DecodeError::BadRowWidth);
        }
        i += 1;
    }

    let mut buckets: Vec<Vec<Detection>> = Vec::new();
    let mut c: usize = 0;
    while c < num_classes
        invariant
            c <= num_classes,
            buckets@.len() == c as int,
            forall|cc: int| 0 <= cc < c ==> #[trigger] buckets@[cc]@ == Seq::<Detection>::empty(),
        decreases num_classes - c,
    {
        buckets.push(Vec::new());
        c += 1;
    }

    let mut i: usize = 0;
    while i < rows.len()
        invariant
            i <= rows@.len(),
            width == 4 + num_classes,
            1 <= num_classes <= 65536,
            dims_in_range(iw, ih, mw, mh),
            0 <= conf_threshold <= SCALE,
            tensor == rows.deep_view(),
            tensor.len() == rows@.len(),
            forall|ii: int| 0 <= ii < tensor.len() ==> tensor[ii] == rows@[ii]@,
            tensor_in_range(tensor),
            iw == img_w as int && ih == img_h as int && mw == input_w as int && mh
                == input_h as int && ct == conf_threshold as int && nc == num_classes as int,
            forall|ii: int| 0 <= ii < rows@.len() ==> #[trigger] rows@[ii]@.len() == 4 + num_classes,
            buckets@.len() == num_classes as int,
            forall|cc: int|
                0 <= cc < num_classes ==> #[trigger] buckets@[cc]@ == decode_seq(
                    tensor.take(i as int),
                    iw,
                    ih,
                    mw,
                    mh,
                    ct,
                    nc,
                ).filter(has_class(cc)),
            forall|cc: int|
                0 <= cc < num_classes ==> FrameResult::bucket_well_formed(
                    #[trigger] buckets@[cc]@,
                    cc,
                    nc,
                ),
        decreases rows@.len() - i,
    {
        let ghost row_spec = tensor[i as int];
        let ghost prev = tensor.take(i as int);
        proof {
            assert(tensor.take(i as int + 1) =~= prev.push(row_spec));
            assert(tensor.take(i as int + 1).drop_last() =~= prev);
            assert(row_in_range(row_spec));
        }
        let row = &rows[i];

        // best class score: replace only on strictly greater, ties keep the
        // lowest class index
        let mut best: usize = 4;
        let mut j: usize = 5;
        while j < width
            invariant
                5 <= j <= width,
                width == row@.len(),
                row@ == row_spec,
                4 <= best < j,
                best as int == best_score_index(row_spec, j as int),
            decreases width - j,
        {
            if row[j] > row[best] {
                best = j;
            }
            j += 1;
        }
        proof {
            assert(best as int == best_score_index(row_spec, row_spec.len() as int));
        }

        let conf = row[best];
        let keep_conf = conf > conf_threshold && conf > 0;
        let w = row[2];
        let h = row[3];
        if keep_conf && w > 0 && h > 0 {
            let wh = ((w as u64) / 2) as i64;
            let hh = ((h as u64) / 2) as i64;
            proof {
                assert(wh == row_spec[2] as int / 2);
                assert(hh == row_spec[3] as int / 2);
                lemma_div_pos_is_pos(row_spec[2] as int, 2);
                lemma_div_pos_is_pos(row_spec[3] as int, 2);
                lemma_div_is_ordered(row_spec[2] as int, RAW_LIMIT as int, 2);
                lemma_div_is_ordered(row_spec[3] as int, RAW_LIMIT as int, 2);
            }
            let x1 = scale_coord(row[0] - wh, img_w, input_w);
            let x2 = scale_coord(row[0] + wh, img_w, input_w);
            let y1 = scale_coord(row[1] - hh, img_h, input_h);
            let y2 = scale_coord(row[1] + hh, img_h, input_h);
            if x1 < x2 && y1 < y2 {
                let class_id = best - 4;
                let d = Detection { bbox: BoundingBox { x1, y1, x2, y2 }, class_id, conf };
                proof {
                    assert(row_kept(row_spec, iw, ih, mw, mh, ct, nc));
                    assert(d == decoded_detection(row_spec, iw, ih, mw, mh));
                    assert(d.well_formed(nc));
                }
                let ghost old_buckets = buckets@;
                let slot = &mut buckets[class_id];
                slot.push(d);
                proof {
                    assert(buckets@[class_id as int]@ =~= old_buckets[class_id as int]@.push(d));
                    assert forall|cc: int| 0 <= cc < num_classes implies #[trigger] buckets@[cc]@
                        == decode_seq(tensor.take(i as int + 1), iw, ih, mw, mh, ct, nc).filter(
                        has_class(cc),
                    ) by {
                        let pred = has_class(cc);
                        Seq::lemma_filter_push(
                            decode_seq(prev, iw, ih, mw, mh, ct, nc),
                            d,
                            pred,
                        );
                        if cc != class_id as int {
                            assert(buckets@[cc]@ == old_buckets[cc]@);
                        }
                    };
                }
            } else {
                proof {
                    assert(!row_kept(row_spec, iw, ih, mw, mh, ct, nc));
                    assert(decode_seq(tensor.take(i as int + 1), iw, ih, mw, mh, ct, nc)
                        == decode_seq(prev, iw, ih, mw, mh, ct, nc));
                }
            }
        } else {
            proof {
                assert(!row_kept(row_spec, iw, ih, mw, mh, ct, nc));
                assert(decode_seq(tensor.take(i as int + 1), iw, ih, mw, mh, ct, nc) == decode_seq(
                    prev,
                    iw,
                    ih,
                    mw,
                    mh,
                    ct,
                    nc,
                ));
            }
        }
        i += 1;
    }
    proof {
        assert(tensor.take(tensor.len() as int) =~= tensor);
    }
    let f = FrameResult { buckets };
    proof {
        assert(f.well_formed());
    }
    Ok(f)
}

} // verus!
