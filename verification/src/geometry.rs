//! Axis-aligned boxes in image pixel coordinates, their intersection and
//! union areas, and threshold comparisons of the intersection-over-union
//! ratio, all in integer arithmetic.

use vstd::prelude::*;

verus! {

/// Largest magnitude a box coordinate may take. Keeps every area product and
/// every scaled IoU comparison inside `i64`.
pub const COORD_LIMIT: i64 = 8388608;

/// Fixed-point unit for confidences and ratio thresholds: `SCALE` stands for 1.0.
pub const SCALE: i64 = 10000;

/// An axis-aligned box; well-formed when `x1 < x2` and `y1 < y2`.
#[derive(Clone, Copy, Debug, PartialEq, Eq, Structural)]
pub struct BoundingBox {
    pub x1: i64,
    pub y1: i64,
    pub x2: i64,
    pub y2: i64,
}

impl BoundingBox {
    pub open spec fn in_bounds(self) -> bool {
        &&& -COORD_LIMIT <= self.x1 <= COORD_LIMIT
        &&& -COORD_LIMIT <= self.y1 <= COORD_LIMIT
        &&& -COORD_LIMIT <= self.x2 <= COORD_LIMIT
        &&& -COORD_LIMIT <= self.y2 <= COORD_LIMIT
    }

    /// A usable box: in range and of positive width and height.
    pub open spec fn well_formed(self) -> bool {
        self.in_bounds() && self.x1 < self.x2 && self.y1 < self.y2
    }

    pub open spec fn spec_area(self) -> int {
        (self.x2 - self.x1) * (self.y2 - self.y1)
    }

    /// Runtime counterpart of `well_formed`.
    pub fn check_well_formed(&self) -> (r: bool)
        ensures
            r == self.well_formed(),
    {
        -COORD_LIMIT <= self.x1 && self.x1 <= COORD_LIMIT && -COORD_LIMIT <= self.y1
            && self.y1 <= COORD_LIMIT && -COORD_LIMIT <= self.x2 && self.x2 <= COORD_LIMIT
            && -COORD_LIMIT <= self.y2 && self.y2 <= COORD_LIMIT && self.x1 < self.x2
            && self.y1 < self.y2
    }
}

/// Length of the overlap of intervals `[a1, a2]` and `[b1, b2]`, clamped to zero.
pub open spec fn overlap_len(a1: int, a2: int, b1: int, b2: int) -> int {
    let lo = if a1 >= b1 {
        a1
    } else {
        b1
    };
    let hi = if a2 <= b2 {
        a2
    } else {
        b2
    };
    if hi >= lo {
        hi - lo
    } else {
        0
    }
}

/// Area of the overlap of two boxes; zero (never negative) when they are disjoint.
pub open spec fn spec_intersection(a: BoundingBox, b: BoundingBox) -> int {
    overlap_len(a.x1 as int, a.x2 as int, b.x1 as int, b.x2 as int) * overlap_len(
        a.y1 as int,
        a.y2 as int,
        b.y1 as int,
        b.y2 as int,
    )
}

pub open spec fn spec_union(a: BoundingBox, b: BoundingBox) -> int {
    a.spec_area() + b.spec_area() - spec_intersection(a, b)
}

/// The comparison `iou(a, b) >= t / SCALE`, cleared of its division: the IoU
/// ratio is `spec_intersection / spec_union`, so for positive union the
/// comparison is `intersection * SCALE >= union * t`. A union without area
/// has an IoU of zero.
pub open spec fn spec_iou_at_least(a: BoundingBox, b: BoundingBox, t: int) -> bool {
    if spec_union(a, b) <= 0 {
        t <= 0
    } else {
        spec_intersection(a, b) * SCALE >= spec_union(a, b) * t
    }
}

/// Bounds the area of a box whose coordinates are in range; `spec_area` can
/// reach neither side of `i64`.
proof fn lemma_area_in_range(a: BoundingBox)
    requires
        a.in_bounds(),
    ensures
        -0x1000000000000 <= a.spec_area() <= 0x1000000000000,
{
    assert(-0x1000000000000 <= (a.x2 - a.x1) * (a.y2 - a.y1) <= 0x1000000000000)
        by (nonlinear_arith)
        requires
            -0x800000 <= a.x1 <= 0x800000,
            -0x800000 <= a.x2 <= 0x800000,
            -0x800000 <= a.y1 <= 0x800000,
            -0x800000 <= a.y2 <= 0x800000,
    ;
}

/// Bounds the intersection of two boxes whose coordinates are in range.
proof fn lemma_intersection_in_range(a: BoundingBox, b: BoundingBox)
    requires
        a.in_bounds(),
        b.in_bounds(),
    ensures
        0 <= spec_intersection(a, b) <= 0x1000000000000,
{
    let wi = overlap_len(a.x1 as int, a.x2 as int, b.x1 as int, b.x2 as int);
    let hi = overlap_len(a.y1 as int, a.y2 as int, b.y1 as int, b.y2 as int);
    assert(0 <= wi * hi <= 0x1000000000000) by (nonlinear_arith)
        requires
            0 <= wi <= 0x1000000,
            0 <= hi <= 0x1000000,
    ;
}

pub fn intersection_area(a: &BoundingBox, b: &BoundingBox) -> (r: i64)
    requires
        a.in_bounds(),
        b.in_bounds(),
    ensures
        r == spec_intersection(*a, *b),
        0 <= r,
{
    let lx = if a.x1 >= b.x1 {
        a.x1
    } else {
        b.x1
    };
    let hx = if a.x2 <= b.x2 {
        a.x2
    } else {
        b.x2
    };
    let iw = if hx >= lx {
        hx - lx
    } else {
        0
    };
    let ly = if a.y1 >= b.y1 {
        a.y1
    } else {
        b.y1
    };
    let hy = if a.y2 <= b.y2 {
        a.y2
    } else {
        b.y2
    };
    let ih = if hy >= ly {
        hy - ly
    } else {
        0
    };
    proof {
        assert(0 <= iw * ih <= 0x1000000000000) by (nonlinear_arith)
            requires
                0 <= iw <= 0x1000000,
                0 <= ih <= 0x1000000,
        ;
    }
    iw * ih
}

pub fn union_area(a: &BoundingBox, b: &BoundingBox) -> (r: i64)
    requires
        a.in_bounds(),
        b.in_bounds(),
    ensures
        r == spec_union(*a, *b),
{
    proof {
        lemma_area_in_range(*a);
        lemma_area_in_range(*b);
        lemma_intersection_in_range(*a, *b);
    }
    let area_a = (a.x2 - a.x1) * (a.y2 - a.y1);
    let area_b = (b.x2 - b.x1) * (b.y2 - b.y1);
    let inter = intersection_area(a, b);
    area_a + area_b - inter
}

/// Decides `iou(a, b) >= t / SCALE` exactly, without division.
pub fn iou_at_least(a: &BoundingBox, b: &BoundingBox, t: i64) -> (r: bool)
    requires
        a.in_bounds(),
        b.in_bounds(),
        0 <= t <= SCALE,
    ensures
        r == spec_iou_at_least(*a, *b, t as int),
{
    let inter = intersection_area(a, b);
    let uni = union_area(a, b);
    proof {
        lemma_area_in_range(*a);
        lemma_area_in_range(*b);
        lemma_intersection_in_range(*a, *b);
        assert(0 <= inter * SCALE <= 0x2710000000000000) by (nonlinear_arith)
            requires
                0 <= inter <= 0x1000000000000,
                SCALE == 10000,
        ;
        assert(-0x7530000000000000 <= uni * t <= 0x7530000000000000) by (nonlinear_arith)
            requires
                -0x3000000000000 <= uni <= 0x3000000000000,
                0 <= t <= 10000,
        ;
    }
    if uni <= 0 {
        t <= 0
    } else {
        inter * SCALE >= uni * t
    }
}

/// The IoU ratio is symmetric: intersection and union do not depend on the
/// order of their arguments, so neither does any threshold comparison.
pub proof fn lemma_iou_symmetric(a: BoundingBox, b: BoundingBox)
    ensures
        spec_intersection(a, b) == spec_intersection(b, a),
        spec_union(a, b) == spec_union(b, a),
        forall|t: int| spec_iou_at_least(a, b, t) == spec_iou_at_least(b, a, t),
{
}

/// The IoU of a well-formed box with itself is exactly one: intersection and
/// union agree and are positive, so the ratio is `SCALE / SCALE`.
pub proof fn lemma_iou_self(a: BoundingBox)
    requires
        a.well_formed(),
    ensures
        spec_intersection(a, a) == spec_union(a, a),
        spec_union(a, a) > 0,
        spec_iou_at_least(a, a, SCALE as int),
{
    assert((a.x2 - a.x1) * (a.y2 - a.y1) >= 1) by (nonlinear_arith)
        requires
            a.x1 < a.x2,
            a.y1 < a.y2,
    ;
}

/// For well-formed boxes the intersection never exceeds the union, and both
/// are meaningful: the IoU ratio lies in `[0, 1]`.
pub proof fn lemma_intersection_le_union(a: BoundingBox, b: BoundingBox)
    requires
        a.well_formed(),
        b.well_formed(),
    ensures
        0 <= spec_intersection(a, b),
        spec_intersection(a, b) <= spec_union(a, b),
        spec_union(a, b) > 0,
{
    let wi = overlap_len(a.x1 as int, a.x2 as int, b.x1 as int, b.x2 as int);
    let hi = overlap_len(a.y1 as int, a.y2 as int, b.y1 as int, b.y2 as int);
    let wa = a.x2 - a.x1;
    let ha = a.y2 - a.y1;
    let wb = b.x2 - b.x1;
    let hb = b.y2 - b.y1;
    assert(0 <= wi * hi) by (nonlinear_arith)
        requires
            0 <= wi,
            0 <= hi,
    ;
    assert(wi * hi <= wa * ha) by (nonlinear_arith)
        requires
            0 <= wi <= wa,
            0 <= hi <= ha,
    ;
    assert(wi * hi <= wb * hb) by (nonlinear_arith)
        requires
            0 <= wi <= wb,
            0 <= hi <= hb,
    ;
    assert(wa * ha >= 1) by (nonlinear_arith)
        requires
            1 <= wa,
            1 <= ha,
    ;
}

/// The IoU of two well-formed boxes is exactly one precisely when the boxes
/// are equal: any genuine difference loses a sliver of area from the overlap.
pub proof fn lemma_iou_one_iff_equal(a: BoundingBox, b: BoundingBox)
    requires
        a.well_formed(),
        b.well_formed(),
    ensures
        (spec_intersection(a, b) == spec_union(a, b)) <==> (a == b),
{
    let wi = overlap_len(a.x1 as int, a.x2 as int, b.x1 as int, b.x2 as int);
    let hi = overlap_len(a.y1 as int, a.y2 as int, b.y1 as int, b.y2 as int);
    let wa = a.x2 - a.x1;
    let ha = a.y2 - a.y1;
    let wb = b.x2 - b.x1;
    let hb = b.y2 - b.y1;
    lemma_intersection_le_union(a, b);
    if spec_intersection(a, b) == spec_union(a, b) {
        assert(wi * hi <= wa * ha) by (nonlinear_arith)
            requires
                0 <= wi <= wa,
                0 <= hi <= ha,
        ;
        assert(wi * hi <= wb * hb) by (nonlinear_arith)
            requires
                0 <= wi <= wb,
                0 <= hi <= hb,
        ;
        assert(wi * hi == wa * ha && wi * hi == wb * hb);
        assert(wi == wa && hi == ha) by (nonlinear_arith)
            requires
                0 <= wi <= wa,
                0 <= hi <= ha,
                1 <= wa,
                1 <= ha,
                wi * hi == wa * ha,
        ;
        assert(wi == wb && hi == hb) by (nonlinear_arith)
            requires
                0 <= wi <= wb,
                0 <= hi <= hb,
                1 <= wb,
                1 <= hb,
                wi * hi == wb * hb,
        ;
        assert(a == b);
    }
    if a == b {
        assert(spec_intersection(a, b) == wa * ha);
    }
}

} // verus!
