use vstd::prelude::*;
use vstd::math::{max, min};
use vstd::arithmetic::div_mod::lemma_fundamental_div_mod;

use crate::config::{COORD_LIMIT, ONE};

verus! {

/// True when `v` fits in an `i64`.
pub open spec fn fits_i64(v: int) -> bool {
    i64::MIN <= v <= i64::MAX
}

/// True when `v` lies within the coordinate bound for overlap measurement.
pub open spec fn within_limit(v: int) -> bool {
    -COORD_LIMIT <= v <= COORD_LIMIT
}

/// A rational scale factor `num / den`.
#[derive(Clone, Copy, Debug, PartialEq, Eq, Structural)]
pub struct Scale {
    pub num: u32,
    pub den: u32,
}

impl Scale {
    pub open spec fn wf(&self) -> bool {
        self.den > 0
    }

    /// `v * num / den`, rounded toward negative infinity.
    pub open spec fn apply(&self, v: int) -> int {
        (v * self.num) / (self.den as int)
    }

    /// Scales one value.
    pub fn scale_value(&self, v: i64) -> (r: i64)
        requires
            self.wf(),
            fits_i64(self.apply(v as int)),
        ensures
            r == self.apply(v as int),
    {
        proof {
            assert(-0x800000000000000000000000 <= v * self.num <= 0x800000000000000000000000)
                by (nonlinear_arith)
                requires
                    i64::MIN <= v <= i64::MAX,
                    0 <= self.num <= u32::MAX,
            ;
        }
        let p: i128 = (v as i128) * (self.num as i128);
        floor_div(p, self.den as i128) as i64
    }
}

/// Division rounded toward negative infinity.
pub fn floor_div(a: i128, d: i128) -> (r: i128)
    requires
        d > 0,
    ensures
        r == a / d,
{
    if a >= 0 {
        a / d
    } else {
        let q: i128 = (-(a + 1)) / d;
        proof {
            let n: int = -(a + 1);
            let di: int = d as int;
            let ai: int = a as int;
            lemma_fundamental_div_mod(n, di);
            lemma_fundamental_div_mod(ai, di);
            assert(ai / di == -(n / di) - 1) by (nonlinear_arith)
                requires
                    n == -(ai + 1),
                    n >= 0,
                    di > 0,
                    n == di * (n / di) + n % di,
                    0 <= n % di < di,
                    ai == di * (ai / di) + ai % di,
                    0 <= ai % di < di,
            ;
        }
        -q - 1
    }
}

/// The IoU of two boxes as a fraction `num / den`, with `den > 0`.
#[derive(Clone, Copy, Debug, PartialEq, Eq, Structural)]
pub struct Ratio {
    pub num: i128,
    pub den: i128,
}

/// Bound on the parts of an IoU of bounded boxes.
pub open spec fn ratio_limit() -> int {
    0x10000000000000000000000
}

impl Ratio {
    /// `num / den >= t / ONE`, compared exactly.
    pub open spec fn reaches(&self, t: int) -> bool {
        self.num * ONE >= t * self.den
    }

    /// Whether the ratio is at least the fixed-point threshold `t`.
    pub fn at_least(&self, t: i32) -> (r: bool)
        requires
            -ratio_limit() <= self.num <= ratio_limit(),
            -ratio_limit() <= self.den <= ratio_limit(),
        ensures
            r == self.reaches(t as int),
    {
        proof {
            assert(-ratio_limit() * 0x80000000 <= t * self.den <= ratio_limit() * 0x80000000)
                by (nonlinear_arith)
                requires
                    -ratio_limit() <= self.den <= ratio_limit(),
                    -0x80000000 <= t <= 0x80000000,
            ;
            assert(-ratio_limit() * 1000 <= self.num * 1000 <= ratio_limit() * 1000);
        }
        self.num * (ONE as i128) >= (t as i128) * self.den
    }
}

/// An axis-aligned box: top-left corner and size, in fixed-point units.
#[derive(Clone, Copy, Debug, PartialEq, Eq, Structural)]
pub struct BBox {
    pub x: i64,
    pub y: i64,
    pub w: i64,
    pub h: i64,
}

impl BBox {
    /// Width and height are not negative.
    pub open spec fn valid(&self) -> bool {
        self.w >= 0 && self.h >= 0
    }

    /// Every field lies within `COORD_LIMIT`.
    pub open spec fn bounded(&self) -> bool {
        within_limit(self.x as int) && within_limit(self.y as int) && within_limit(self.w as int)
            && within_limit(self.h as int)
    }

    pub open spec fn right(&self) -> int {
        self.x + self.w
    }

    pub open spec fn bottom(&self) -> int {
        self.y + self.h
    }

    pub open spec fn area_spec(&self) -> int {
        self.w * self.h
    }

    /// Width of the overlap of the two boxes' x-extents, or zero.
    pub open spec fn overlap_w(&self, o: BBox) -> int {
        max(0, min(self.right(), o.right()) - max(self.x as int, o.x as int))
    }

    /// Height of the overlap of the two boxes' y-extents, or zero.
    pub open spec fn overlap_h(&self, o: BBox) -> int {
        max(0, min(self.bottom(), o.bottom()) - max(self.y as int, o.y as int))
    }

    pub open spec fn intersection_spec(&self, o: BBox) -> int {
        self.overlap_w(o) * self.overlap_h(o)
    }

    pub open spec fn union_spec(&self, o: BBox) -> int {
        self.area_spec() + o.area_spec() - self.intersection_spec(o)
    }

    /// IoU as `(numerator, denominator)`: intersection over union, or `0 / 1`
    /// when the union is not positive.
    pub open spec fn iou_spec(&self, o: BBox) -> (int, int) {
        if self.union_spec(o) > 0 {
            (self.intersection_spec(o), self.union_spec(o))
        } else {
            (0, 1)
        }
    }

    /// IoU of the two boxes is at least the fixed-point threshold `t`.
    pub open spec fn iou_reaches(&self, o: BBox, t: int) -> bool {
        self.iou_spec(o).0 * ONE >= t * self.iou_spec(o).1
    }

    /// The box moved by `(dx, dy)`.
    pub open spec fn shifted(&self, dx: int, dy: int) -> BBox {
        BBox { x: (self.x + dx) as i64, y: (self.y + dy) as i64, w: self.w, h: self.h }
    }

    /// The box scaled per axis.
    pub open spec fn scaled(&self, sx: Scale, sy: Scale) -> BBox {
        BBox {
            x: sx.apply(self.x as int) as i64,
            y: sy.apply(self.y as int) as i64,
            w: sx.apply(self.w as int) as i64,
            h: sy.apply(self.h as int) as i64,
        }
    }

    /// Corners `(x1, y1, x2, y2)`.
    pub fn to_xyxy(&self) -> (r: (i64, i64, i64, i64))
        requires
            fits_i64(self.right()),
            fits_i64(self.bottom()),
        ensures
            r == (self.x, self.y, self.right() as i64, self.bottom() as i64),
    {
        (self.x, self.y, self.x + self.w, self.y + self.h)
    }

    /// Area of the overlap of the two boxes.
    pub fn intersection(&self, other: BBox) -> (r: i128)
        requires
            self.bounded(),
            other.bounded(),
        ensures
            r == self.intersection_spec(other),
            0 <= r <= 0x1000000000000000000000,
    {
        let (x1, y1, x2, y2): (i64, i64, i64, i64) = self.to_xyxy();
        let (x3, y3, x4, y4): (i64, i64, i64, i64) = other.to_xyxy();
        let right: i64 = if x2 < x4 { x2 } else { x4 };
        let left: i64 = if x1 > x3 { x1 } else { x3 };
        let bottom: i64 = if y2 < y4 { y2 } else { y4 };
        let top: i64 = if y1 > y3 { y1 } else { y3 };
        let w: i64 = right - left;
        let h: i64 = bottom - top;
        if w < 0 || h < 0 {
            proof {
                assert(self.overlap_w(other) == 0 || self.overlap_h(other) == 0);
                assert(self.intersection_spec(other) == 0) by (nonlinear_arith)
                    requires
                        self.overlap_w(other) == 0 || self.overlap_h(other) == 0,
                        self.intersection_spec(other) == self.overlap_w(other) * self.overlap_h(
                            other,
                        ),
                ;
            }
            return 0;
        }
        proof {
            assert(0 <= w * h <= 0x1000000000000000000000) by (nonlinear_arith)
                requires
                    0 <= w <= 0x40000000000,
                    0 <= h <= 0x40000000000,
            ;
        }
        (w as i128) * (h as i128)
    }

    /// Width times height.
    pub fn area(&self) -> (r: i128)
        requires
            self.bounded(),
        ensures
            r == self.area_spec(),
            -0x100000000000000000000 <= r <= 0x100000000000000000000,
    {
        proof {
            assert(-0x100000000000000000000 <= self.w * self.h <= 0x100000000000000000000)
                by (nonlinear_arith)
                requires
                    self.bounded(),
            ;
        }
        (self.w as i128) * (self.h as i128)
    }

    /// Sum of the areas less the intersection.
    pub fn union(&self, other: BBox) -> (r: i128)
        requires
            self.bounded(),
            other.bounded(),
        ensures
            r == self.union_spec(other),
            -0x2000000000000000000000 <= r <= 0x2000000000000000000000,
    {
        self.area() + other.area() - self.intersection(other)
    }

    /// Intersection over union; `0 / 1` where the union is not positive.
    pub fn iou(&self, other: BBox) -> (r: Ratio)
        requires
            self.bounded(),
            other.bounded(),
        ensures
            (r.num as int, r.den as int) == self.iou_spec(other),
            r.den > 0,
            -ratio_limit() <= r.num <= ratio_limit(),
            -ratio_limit() <= r.den <= ratio_limit(),
    {
        let u: i128 = self.union(other);
        if u > 0 {
            Ratio { num: self.intersection(other), den: u }
        } else {
            Ratio { num: 0, den: 1 }
        }
    }

    /// Whether the IoU of the two boxes reaches the fixed-point threshold `t`.
    pub fn iou_at_least(&self, other: BBox, t: i32) -> (r: bool)
        requires
            self.bounded(),
            other.bounded(),
        ensures
            r == self.iou_reaches(other, t as int),
    {
        self.iou(other).at_least(t)
    }

    /// The box moved by `(dx, dy)`; the size is kept.
    pub fn shift(&self, dx: i64, dy: i64) -> (r: BBox)
        requires
            fits_i64(self.x + dx),
            fits_i64(self.y + dy),
        ensures
            r == self.shifted(dx as int, dy as int),
    {
        BBox { x: self.x + dx, y: self.y + dy, w: self.w, h: self.h }
    }

    /// Corner and size scaled by `sx` along x and `sy` along y.
    pub fn scale(&self, sx: Scale, sy: Scale) -> (r: BBox)
        requires
            sx.wf(),
            sy.wf(),
            fits_i64(sx.apply(self.x as int)),
            fits_i64(sy.apply(self.y as int)),
            fits_i64(sx.apply(self.w as int)),
            fits_i64(sy.apply(self.h as int)),
        ensures
            r == self.scaled(sx, sy),
    {
        BBox {
            x: sx.scale_value(self.x),
            y: sy.scale_value(self.y),
            w: sx.scale_value(self.w),
            h: sy.scale_value(self.h),
        }
    }
}

/// IoU does not depend on the order of the two boxes.
pub proof fn lemma_iou_symmetric(a: BBox, b: BBox)
    ensures
        a.intersection_spec(b) == b.intersection_spec(a),
        a.union_spec(b) == b.union_spec(a),
        a.iou_spec(b) == b.iou_spec(a),
{
    assert(a.overlap_w(b) == b.overlap_w(a));
    assert(a.overlap_h(b) == b.overlap_h(a));
}

/// A box of positive area covers itself exactly: its IoU with itself is one.
pub proof fn lemma_iou_self(a: BBox)
    requires
        a.w > 0,
        a.h > 0,
    ensures
        a.iou_spec(a).1 > 0,
        a.iou_spec(a).0 == a.iou_spec(a).1,
{
    assert(a.overlap_w(a) == a.w);
    assert(a.overlap_h(a) == a.h);
    assert(a.w * a.h > 0) by (nonlinear_arith)
        requires
            a.w > 0,
            a.h > 0,
    ;
}

/// For boxes with sizes that are not negative, IoU lies between zero and one.
pub proof fn lemma_iou_unit_range(a: BBox, b: BBox)
    requires
        a.valid(),
        b.valid(),
    ensures
        a.iou_spec(b).1 > 0,
        0 <= a.iou_spec(b).0 <= a.iou_spec(b).1,
{
    let ow = a.overlap_w(b);
    let oh = a.overlap_h(b);
    assert(0 <= ow <= a.w && 0 <= oh <= a.h && ow <= b.w && oh <= b.h);
    assert(0 <= ow * oh <= a.w * a.h && ow * oh <= b.w * b.h) by (nonlinear_arith)
        requires
            0 <= ow <= a.w,
            0 <= oh <= a.h,
            ow <= b.w,
            oh <= b.h,
    ;
}

} // verus!
