//! Greedy per-class non-maximum suppression: repeatedly keep the remaining
//! detection of highest confidence (earliest on ties) and drop every
//! remaining detection whose IoU with it reaches the threshold.

use vstd::multiset::Multiset;
use vstd::prelude::*;
use vstd::seq_lib::lemma_multiset_commutative;

use crate::detection::Detection;
use crate::detection::FrameResult;
use crate::geometry::iou_at_least;
use crate::geometry::lemma_intersection_le_union;
use crate::geometry::lemma_iou_one_iff_equal;
use crate::geometry::lemma_iou_self;
use crate::geometry::lemma_iou_symmetric;
use crate::geometry::spec_intersection;
use crate::geometry::spec_iou_at_least;
use crate::geometry::spec_union;
use crate::geometry::SCALE;

verus! {

/// The detections that survive suppression against a kept detection `k`:
/// those whose IoU with `k` stays strictly below the threshold.
pub open spec fn survives(k: Detection, t: int) -> spec_fn(Detection) -> bool {
    |d: Detection| !spec_iou_at_least(k.bbox, d.bbox, t)
}

/// Index of the first detection of maximal confidence: a left-to-right scan
/// that replaces its candidate only on a strictly greater confidence.
pub open spec fn argmax_conf(s: Seq<Detection>) -> int
    decreases s.len(),
{
    if s.len() <= 1 {
        0
    } else {
        let r = argmax_conf(s.drop_last());
        if s.last().conf > s[r].conf {
            s.len() - 1
        } else {
            r
        }
    }
}

pub proof fn lemma_argmax_conf(s: Seq<Detection>)
    requires
        s.len() > 0,
    ensures
        0 <= argmax_conf(s) < s.len(),
        forall|i: int| 0 <= i < s.len() ==> (#[trigger] s[i]).conf <= s[argmax_conf(s)].conf,
        forall|i: int| 0 <= i < argmax_conf(s) ==> (#[trigger] s[i]).conf < s[argmax_conf(s)].conf,
    decreases s.len(),
{
    if s.len() > 1 {
        lemma_argmax_conf(s.drop_last());
        let d = s.drop_last();
        let r = argmax_conf(d);
        let k = argmax_conf(s);
        assert forall|i: int| 0 <= i < s.len() implies (#[trigger] s[i]).conf <= s[k].conf by {
            if i < s.len() - 1 {
                assert(d[i] == s[i]);
                assert(d[i].conf <= d[r].conf);
            }
        };
        assert forall|i: int| 0 <= i < k implies (#[trigger] s[i]).conf < s[k].conf by {
            assert(d[i] == s[i]);
            assert(d[i].conf <= d[r].conf);
        };
    }
}

/// The suppression of a bucket: its first element is the first detection of
/// maximal confidence; the rest is the suppression of what survives it.
pub open spec fn nms_spec(s: Seq<Detection>, t: int) -> Seq<Detection>
    decreases s.len(),
    via nms_spec_decreases
{
    if s.len() == 0 {
        Seq::empty()
    } else {
        let k = argmax_conf(s);
        seq![s[k]] + nms_spec(s.remove(k).filter(survives(s[k], t)), t)
    }
}

#[via_fn]
proof fn nms_spec_decreases(s: Seq<Detection>, t: int) {
    broadcast use vstd::seq_lib::group_filter_ensures;

    if s.len() != 0 {
        lemma_argmax_conf(s);
        let k = argmax_conf(s);
        assert(s.remove(k).len() == s.len() - 1);
    }
}

/// Every element of a filtered sequence comes from the sequence itself.
proof fn lemma_filter_elem_of<A>(s: Seq<A>, p: spec_fn(A) -> bool, i: int)
    requires
        0 <= i < s.filter(p).len(),
    ensures
        s.contains(s.filter(p)[i]),
    decreases s.len(),
{
    reveal(Seq::filter);
    if s.len() > 0 {
        let sub = s.drop_last().filter(p);
        if p(s.last()) && i == sub.len() {
            assert(s.filter(p)[i] == s.last());
        } else {
            lemma_filter_elem_of(s.drop_last(), p, i);
            let x = s.drop_last().filter(p)[i];
            let j = choose|j: int| 0 <= j < s.drop_last().len() && s.drop_last()[j] == x;
            assert(s[j] == x);
        }
    }
}

/// Removing an element that the predicate rejects does not change the filter.
proof fn lemma_remove_filter_eq<A>(s: Seq<A>, k: int, p: spec_fn(A) -> bool)
    requires
        0 <= k < s.len(),
        !p(s[k]),
    ensures
        s.remove(k).filter(p) == s.filter(p),
{
    let pre = s.subrange(0, k);
    let mid = seq![s[k]];
    let post = s.subrange(k + 1, s.len() as int);
    assert(s =~= (pre + mid) + post);
    Seq::filter_distributes_over_add(pre + mid, post, p);
    Seq::filter_distributes_over_add(pre, mid, p);
    Seq::filter_distributes_over_add(pre, post, p);
    assert(mid.filter(p) =~= Seq::<A>::empty()) by {
        reveal_with_fuel(Seq::filter, 2);
        assert(mid.drop_last() =~= Seq::<A>::empty());
    }
    assert(pre + mid.filter(p) + post =~= pre + post);
    assert(s.filter(p) == pre.filter(p) + post.filter(p));
    assert(s.remove(k) == pre + post);
}

/// A filter whose predicate accepts every element changes nothing.
proof fn lemma_filter_all_true<A>(s: Seq<A>, p: spec_fn(A) -> bool)
    requires
        forall|i: int| 0 <= i < s.len() ==> p(#[trigger] s[i]),
    ensures
        s.filter(p) == s,
    decreases s.len(),
{
    reveal(Seq::filter);
    if s.len() > 0 {
        lemma_filter_all_true(s.drop_last(), p);
        assert(s.filter(p) =~= s);
    } else {
        assert(s.filter(p) =~= s);
    }
}

/// A filter whose predicate rejects every element leaves nothing.
proof fn lemma_filter_all_false<A>(s: Seq<A>, p: spec_fn(A) -> bool)
    requires
        forall|i: int| 0 <= i < s.len() ==> !p(#[trigger] s[i]),
    ensures
        s.filter(p) == Seq::<A>::empty(),
    decreases s.len(),
{
    reveal(Seq::filter);
    if s.len() > 0 {
        lemma_filter_all_false(s.drop_last(), p);
        assert(s.filter(p) =~= Seq::<A>::empty());
    } else {
        assert(s.filter(p) =~= Seq::<A>::empty());
    }
}

/// Every kept detection comes from the candidate sequence.
pub proof fn lemma_nms_elem_of(s: Seq<Detection>, t: int, i: int)
    requires
        0 <= i < nms_spec(s, t).len(),
    ensures
        s.contains(nms_spec(s, t)[i]),
    decreases s.len(),
{
    let k = argmax_conf(s);
    lemma_argmax_conf(s);
    let p = survives(s[k], t);
    let rest = s.remove(k).filter(p);
    if i == 0 {
        assert(nms_spec(s, t)[0] == s[k]);
    } else {
        lemma_nms_elem_of(rest, t, i - 1);
        let x = nms_spec(rest, t)[i - 1];
        assert(nms_spec(s, t)[i] == x);
        let j = choose|j: int| 0 <= j < rest.len() && rest[j] == x;
        lemma_filter_elem_of(s.remove(k), p, j);
        let jj = choose|jj: int| 0 <= jj < s.remove(k).len() && s.remove(k)[jj] == x;
        if jj < k {
            assert(s[jj] == x);
        } else {
            assert(s[jj + 1] == x);
        }
    }
}

fn argmax_index(v: &Vec<Detection>) -> (k: usize)
    requires
        v@.len() > 0,
    ensures
        k as int == argmax_conf(v@),
        k < v@.len(),
{
    let mut best: usize = 0;
    let mut i: usize = 1;
    proof {
        assert(v@.take(1).len() == 1);
    }
    while i < v.len()
        invariant
            1 <= i <= v@.len(),
            best < i,
            best as int == argmax_conf(v@.take(i as int)),
        decreases v@.len() - i,
    {
        proof {
            assert(v@.take(i as int + 1).drop_last() =~= v@.take(i as int));
            assert(v@.take(i as int + 1).last() == v@[i as int]);
        }
        if v[i].conf > v[best].conf {
            best = i;
        }
        i += 1;
    }
    proof {
        assert(v@.take(v@.len() as int) =~= v@);
    }
    best
}

/// Suppression of one class bucket. Candidates must carry well-formed boxes:
/// degenerate boxes are discarded before suppression.
pub fn nms_bucket(cands: &Vec<Detection>, t: i64) -> (kept: Vec<Detection>)
    requires
        0 <= t <= SCALE,
        forall|i: int| 0 <= i < cands@.len() ==> (#[trigger] cands@[i]).bbox.well_formed(),
    ensures
        kept@ == nms_spec(cands@, t as int),
{
    let mut kept: Vec<Detection> = Vec::new();
    let mut rest: Vec<Detection> = Vec::new();
    let mut i: usize = 0;
    while i < cands.len()
        invariant
            i <= cands@.len(),
            rest@ == cands@.take(i as int),
        decreases cands@.len() - i,
    {
        rest.push(cands[i]);
        proof {
            assert(cands@.take(i as int + 1) =~= cands@.take(i as int).push(cands@[i as int]));
        }
        i += 1;
    }
    proof {
        assert(cands@.take(cands@.len() as int) =~= cands@);
    }
    while rest.len() > 0
        invariant
            0 <= t <= SCALE,
            forall|i: int| 0 <= i < rest@.len() ==> (#[trigger] rest@[i]).bbox.well_formed(),
            nms_spec(cands@, t as int) == kept@ + nms_spec(rest@, t as int),
        decreases rest@.len(),
    {
        let ghost prev = rest@;
        let k = argmax_index(&rest);
        proof {
            lemma_argmax_conf(prev);
        }
        let best = rest[k];
        kept.push(best);
        let p = Ghost(survives(best, t as int));
        let mut out: Vec<Detection> = Vec::new();
        let mut j: usize = 0;
        while j < rest.len()
            invariant
                j <= rest@.len(),
                rest@ == prev,
                k < prev.len(),
                best == prev[k as int],
                0 <= t <= SCALE,
                p@ == survives(best, t as int),
                forall|i: int| 0 <= i < prev.len() ==> (#[trigger] prev[i]).bbox.well_formed(),
                out@ == prev.take(j as int).filter(p@),
                forall|i: int| 0 <= i < out@.len() ==> (#[trigger] out@[i]).bbox.well_formed(),
            decreases rest@.len() - j,
        {
            let keep_it = !iou_at_least(&best.bbox, &rest[j].bbox, t);
            proof {
                assert(prev.take(j as int + 1) =~= prev.take(j as int).push(prev[j as int]));
                Seq::lemma_filter_push(prev.take(j as int), prev[j as int], p@);
            }
            if keep_it {
                out.push(rest[j]);
            }
            j += 1;
        }
        proof {
            assert(prev.take(prev.len() as int) =~= prev);
            // the kept detection never survives itself, so filtering the whole
            // remainder equals removing it first and filtering the rest
            lemma_iou_self(best.bbox);
            assert(spec_union(best.bbox, best.bbox) * (t as int) <= spec_union(best.bbox, best.bbox)
                * SCALE) by (nonlinear_arith)
                requires
                    0 <= t <= SCALE,
                    spec_union(best.bbox, best.bbox) > 0,
            ;
            assert(spec_iou_at_least(best.bbox, best.bbox, t as int));
            assert(!p@(prev[k as int]));
            lemma_remove_filter_eq(prev, k as int, p@);
            assert(out@ == prev.remove(k as int).filter(p@));
            assert(nms_spec(prev, t as int) == seq![best] + nms_spec(out@, t as int));
            broadcast use vstd::seq_lib::group_filter_ensures;

            assert(out@.len() <= prev.remove(k as int).len());
            assert(kept@.push(best) + nms_spec(out@, t as int) =~= kept@ + (seq![best] + nms_spec(
                out@,
                t as int,
            )));
        }
        rest = out;
    }
    proof {
        assert(kept@ + nms_spec(rest@, t as int) =~= kept@);
    }
    kept
}

/// Suppression of every bucket of a frame, each independently.
pub fn suppress_frame(frame: &FrameResult, t: i64) -> (r: FrameResult)
    requires
        0 <= t <= SCALE,
        frame.well_formed(),
    ensures
        r.buckets@.len() == frame.buckets@.len(),
        forall|c: int|
            0 <= c < frame.buckets@.len() ==> #[trigger] r.buckets@[c]@ == nms_spec(
                frame.buckets@[c]@,
                t as int,
            ),
        r.well_formed(),
{
    let n = frame.buckets.len();
    let mut buckets: Vec<Vec<Detection>> = Vec::new();
    let mut c: usize = 0;
    while c < n
        invariant
            c <= n,
            0 <= t <= SCALE,
            n == frame.buckets@.len(),
            frame.well_formed(),
            buckets@.len() == c as int,
            forall|cc: int|
                0 <= cc < c ==> #[trigger] buckets@[cc]@ == nms_spec(
                    frame.buckets@[cc]@,
                    t as int,
                ),
        decreases n - c,
    {
        proof {
            assert(FrameResult::bucket_well_formed(frame.buckets@[c as int]@, c as int, n as int));
        }
        let kept = nms_bucket(&frame.buckets[c], t);
        buckets.push(kept);
        c += 1;
    }
    let r = FrameResult { buckets };
    proof {
        assert forall|cc: int| 0 <= cc < r.buckets@.len() implies #[trigger] FrameResult::bucket_well_formed(
            r.buckets@[cc]@,
            cc,
            r.buckets@.len() as int,
        ) by {
            let orig = frame.buckets@[cc]@;
            assert(FrameResult::bucket_well_formed(orig, cc, n as int));
            assert forall|i: int| 0 <= i < r.buckets@[cc]@.len() implies (#[trigger] r.buckets@[cc]@[i]).well_formed(
                n as int,
            ) && r.buckets@[cc]@[i].class_id == cc by {
                lemma_nms_elem_of(orig, t as int, i);
                let x = nms_spec(orig, t as int)[i];
                let j = choose|j: int| 0 <= j < orig.len() && orig[j] == x;
                assert(orig[j].well_formed(n as int));
            }
        }
    }
    r
}

/// No two kept detections of one bucket reach the suppression threshold:
/// every pair of survivors has IoU strictly below it.
pub proof fn lemma_nms_pairwise_below(s: Seq<Detection>, t: int)
    requires
        0 <= t <= SCALE,
        forall|i: int| 0 <= i < s.len() ==> (#[trigger] s[i]).bbox.well_formed(),
    ensures
        forall|i: int, j: int|
            0 <= i < nms_spec(s, t).len() && 0 <= j < nms_spec(s, t).len() && i != j
                ==> !spec_iou_at_least(nms_spec(s, t)[i].bbox, nms_spec(s, t)[j].bbox, t),
    decreases s.len(),
{
    broadcast use vstd::seq_lib::group_filter_ensures;

    if s.len() > 0 {
        let k = argmax_conf(s);
        lemma_argmax_conf(s);
        let p = survives(s[k], t);
        let rest = s.remove(k).filter(p);
        assert forall|i: int| 0 <= i < rest.len() implies (#[trigger] rest[i]).bbox.well_formed() by {
            lemma_filter_elem_of(s.remove(k), p, i);
            let x = rest[i];
            let jj = choose|jj: int| 0 <= jj < s.remove(k).len() && s.remove(k)[jj] == x;
            if jj < k {
                assert(s[jj] == x);
            } else {
                assert(s[jj + 1] == x);
            }
        };
        lemma_nms_pairwise_below(rest, t);
        let out = nms_spec(s, t);
        let tail = nms_spec(rest, t);
        assert forall|i: int, j: int|
            0 <= i < out.len() && 0 <= j < out.len() && i != j implies !spec_iou_at_least(
            out[i].bbox,
            out[j].bbox,
            t,
        ) by {
            if i == 0 || j == 0 {
                let m = if i == 0 {
                    j
                } else {
                    i
                };
                assert(out[m] == tail[m - 1]);
                lemma_nms_elem_of(rest, t, m - 1);
                let x = tail[m - 1];
                let w = choose|w: int| 0 <= w < rest.len() && rest[w] == x;
                assert(p(rest[w]));
                lemma_iou_symmetric(s[k].bbox, x.bbox);
            } else {
                assert(out[i] == tail[i - 1] && out[j] == tail[j - 1]);
            }
        };
    }
}

/// At a threshold of one (an IoU of `SCALE`), suppression only ever discards a
/// duplicate of the kept box; candidates with pairwise distinct boxes all
/// survive, as the same multiset of detections.
#[verifier::rlimit(50)]
pub proof fn lemma_nms_threshold_one_keeps_all(s: Seq<Detection>)
    requires
        forall|i: int| 0 <= i < s.len() ==> (#[trigger] s[i]).bbox.well_formed(),
        forall|i: int, j: int| 0 <= i < j < s.len() ==> s[i].bbox != s[j].bbox,
    ensures
        nms_spec(s, SCALE as int).to_multiset() == s.to_multiset(),
        nms_spec(s, SCALE as int).len() == s.len(),
    decreases s.len(),
{
    broadcast use vstd::seq_lib::group_to_multiset_ensures;

    if s.len() == 0 {
        assert(nms_spec(s, SCALE as int).to_multiset() =~= s.to_multiset());
    } else {
        let k = argmax_conf(s);
        lemma_argmax_conf(s);
        let p = survives(s[k], SCALE as int);
        let removed = s.remove(k);
        assert forall|i: int| 0 <= i < removed.len() implies p(#[trigger] removed[i]) by {
            let x = removed[i];
            if i < k {
                assert(s[i] == x);
            } else {
                assert(s[i + 1] == x);
            }
            assert(x.bbox != s[k].bbox);
            lemma_intersection_le_union(s[k].bbox, x.bbox);
            lemma_iou_one_iff_equal(s[k].bbox, x.bbox);
            assert(spec_intersection(s[k].bbox, x.bbox) < spec_union(s[k].bbox, x.bbox));
            assert(spec_intersection(s[k].bbox, x.bbox) * SCALE < spec_union(s[k].bbox, x.bbox)
                * SCALE) by (nonlinear_arith)
                requires
                    spec_intersection(s[k].bbox, x.bbox) < spec_union(s[k].bbox, x.bbox),
                    SCALE == 10000,
            ;
        };
        lemma_filter_all_true(removed, p);
        let rest = removed.filter(p);
        assert(rest == removed);
        assert forall|i: int, j: int| 0 <= i < j < removed.len() implies removed[i].bbox
            != removed[j].bbox by {
            if j < k {
                assert(s[i] == removed[i] && s[j] == removed[j]);
            } else if i < k {
                assert(s[i] == removed[i] && s[j + 1] == removed[j]);
            } else {
                assert(s[i + 1] == removed[i] && s[j + 1] == removed[j]);
            }
        };
        assert forall|i: int| 0 <= i < removed.len() implies (
        #[trigger] removed[i]).bbox.well_formed() by {
            if i < k {
                assert(s[i] == removed[i]);
            } else {
                assert(s[i + 1] == removed[i]);
            }
        };
        lemma_nms_threshold_one_keeps_all(removed);
        lemma_multiset_commutative(seq![s[k]], nms_spec(removed, SCALE as int));
        assert(seq![s[k]].to_multiset() =~= Multiset::<Detection>::empty().insert(s[k])) by {
            assert(seq![s[k]] =~= Seq::<Detection>::empty().push(s[k]));
        }
        assert(nms_spec(s, SCALE as int).to_multiset() =~= s.to_multiset()) by {
            assert(nms_spec(s, SCALE as int) == seq![s[k]] + nms_spec(removed, SCALE as int));
            assert(removed.to_multiset() == s.to_multiset().remove(s[k]));
            assert(s.to_multiset().count(s[k]) > 0) by {
                assert(s.contains(s[k]));
            }
        }
    }
}

/// At a threshold of zero every candidate reaches the threshold against the
/// kept one, so only the single detection of highest confidence survives.
pub proof fn lemma_nms_threshold_zero_keeps_top(s: Seq<Detection>)
    requires
        s.len() > 0,
    ensures
        nms_spec(s, 0) == seq![s[argmax_conf(s)]],
{
    let k = argmax_conf(s);
    lemma_argmax_conf(s);
    let p = survives(s[k], 0);
    let removed = s.remove(k);
    assert forall|i: int| 0 <= i < removed.len() implies !p(#[trigger] removed[i]) by {
        let x = removed[i];
        let wi = crate::geometry::overlap_len(
            s[k].bbox.x1 as int,
            s[k].bbox.x2 as int,
            x.bbox.x1 as int,
            x.bbox.x2 as int,
        );
        let hi = crate::geometry::overlap_len(
            s[k].bbox.y1 as int,
            s[k].bbox.y2 as int,
            x.bbox.y1 as int,
            x.bbox.y2 as int,
        );
        assert(wi * hi >= 0) by (nonlinear_arith)
            requires
                wi >= 0,
                hi >= 0,
        ;
        assert(spec_intersection(s[k].bbox, x.bbox) * SCALE >= 0) by (nonlinear_arith)
            requires
                spec_intersection(s[k].bbox, x.bbox) >= 0,
                SCALE == 10000,
        ;
        assert(spec_union(s[k].bbox, x.bbox) * 0 == 0) by (nonlinear_arith);
    };
    lemma_filter_all_false(removed, p);
    assert(nms_spec(Seq::<Detection>::empty(), 0) =~= Seq::<Detection>::empty());
    assert(nms_spec(s, 0) =~= seq![s[k]]);
}

} // verus!
