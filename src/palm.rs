use vstd::prelude::*;

use crate::config::{HALF_MODEL, NUM_TIPS};
use crate::geometry::{fits_i64, BBox, Scale};

verus! {

/// A point `(x, y)` in fixed-point units.
pub type Point = (i64, i64);

/// `p` moved by `(dx, dy)`.
pub open spec fn shifted_point(p: Point, dx: int, dy: int) -> Point {
    ((p.0 + dx) as i64, (p.1 + dy) as i64)
}

/// `p` scaled by `sx` along x and `sy` along y.
pub open spec fn scaled_point(p: Point, sx: Scale, sy: Scale) -> Point {
    (sx.apply(p.0 as int) as i64, sy.apply(p.1 as int) as i64)
}

/// A model-space coordinate, shifted to top-left origin, and then scaled,
/// fits in an `i64` at each step.
pub open spec fn maps_within(v: int, s: Scale) -> bool {
    fits_i64(v + HALF_MODEL) && fits_i64(s.apply(v + HALF_MODEL))
}

/// A detected palm: its box, its seven landmarks and its score.
#[derive(Clone, Copy, Debug)]
pub struct Palm {
    pub bbox: BBox,
    pub tips: [Point; 7],
    pub score: i64,
}

impl Palm {
    /// Moving every coordinate by `(dx, dy)` stays within `i64`.
    pub open spec fn can_shift(&self, dx: int, dy: int) -> bool {
        &&& fits_i64(self.bbox.x + dx)
        &&& fits_i64(self.bbox.y + dy)
        &&& forall|i: int|
            0 <= i < NUM_TIPS ==> fits_i64(#[trigger] self.tips@[i].0 + dx) && fits_i64(
                self.tips@[i].1 + dy,
            )
    }

    /// Scaling every coordinate stays within `i64`.
    pub open spec fn can_scale(&self, sx: Scale, sy: Scale) -> bool {
        &&& fits_i64(sx.apply(self.bbox.x as int))
        &&& fits_i64(sy.apply(self.bbox.y as int))
        &&& fits_i64(sx.apply(self.bbox.w as int))
        &&& fits_i64(sy.apply(self.bbox.h as int))
        &&& forall|i: int|
            0 <= i < NUM_TIPS ==> fits_i64(sx.apply(#[trigger] self.tips@[i].0 as int)) && fits_i64(
                sy.apply(self.tips@[i].1 as int),
            )
    }

    /// Mapping to image space stays within `i64` at each step.
    pub open spec fn can_map(&self, sx: Scale, sy: Scale) -> bool {
        &&& maps_within(self.bbox.x as int, sx)
        &&& maps_within(self.bbox.y as int, sy)
        &&& fits_i64(sx.apply(self.bbox.w as int))
        &&& fits_i64(sy.apply(self.bbox.h as int))
        &&& forall|i: int|
            0 <= i < NUM_TIPS ==> maps_within(#[trigger] self.tips@[i].0 as int, sx)
                && maps_within(self.tips@[i].1 as int, sy)
    }

    /// `self` is `p` moved by `(dx, dy)`.
    pub open spec fn is_shift_of(&self, p: Palm, dx: int, dy: int) -> bool {
        &&& self.bbox == p.bbox.shifted(dx, dy)
        &&& self.score == p.score
        &&& forall|i: int|
            0 <= i < NUM_TIPS ==> #[trigger] self.tips@[i] == shifted_point(p.tips@[i], dx, dy)
    }

    /// `self` is `p` scaled by `sx` along x and `sy` along y.
    pub open spec fn is_scale_of(&self, p: Palm, sx: Scale, sy: Scale) -> bool {
        &&& self.bbox == p.bbox.scaled(sx, sy)
        &&& self.score == p.score
        &&& forall|i: int|
            0 <= i < NUM_TIPS ==> #[trigger] self.tips@[i] == scaled_point(p.tips@[i], sx, sy)
    }

    /// `self` is the model-space detection `p` in image space: every
    /// coordinate shifted by half the model side, then scaled.
    pub open spec fn is_image_of(&self, p: Palm, sx: Scale, sy: Scale) -> bool {
        &&& self.bbox == p.bbox.shifted(HALF_MODEL as int, HALF_MODEL as int).scaled(sx, sy)
        &&& self.score == p.score
        &&& forall|i: int|
            0 <= i < NUM_TIPS ==> #[trigger] self.tips@[i] == scaled_point(
                shifted_point(p.tips@[i], HALF_MODEL as int, HALF_MODEL as int),
                sx,
                sy,
            )
    }

    /// Every coordinate moved by `(dx, dy)`; the score is kept.
    pub fn shift(&self, dx: i64, dy: i64) -> (r: Palm)
        requires
            self.can_shift(dx as int, dy as int),
        ensures
            r.is_shift_of(*self, dx as int, dy as int),
    {
        let mut tips: [Point; 7] = self.tips;
        let mut i: usize = 0;
        while i < NUM_TIPS
            invariant
                i <= NUM_TIPS,
                self.can_shift(dx as int, dy as int),
                forall|k: int|
                    0 <= k < i ==> #[trigger] tips@[k] == shifted_point(
                        self.tips@[k],
                        dx as int,
                        dy as int,
                    ),
                forall|k: int| i <= k < NUM_TIPS ==> #[trigger] tips@[k] == self.tips@[k],
            decreases NUM_TIPS - i,
        {
            let (x, y): Point = tips[i];
            assert(fits_i64(self.tips@[i as int].0 + dx));
            tips[i] = (x + dx, y + dy);
            i = i + 1;
        }
        Palm { bbox: self.bbox.shift(dx, dy), tips, score: self.score }
    }

    /// Every coordinate and the box size scaled per axis; the score is kept.
    pub fn scale(&self, sx: Scale, sy: Scale) -> (r: Palm)
        requires
            sx.wf(),
            sy.wf(),
            self.can_scale(sx, sy),
        ensures
            r.is_scale_of(*self, sx, sy),
    {
        let mut tips: [Point; 7] = self.tips;
        let mut i: usize = 0;
        while i < NUM_TIPS
            invariant
                i <= NUM_TIPS,
                sx.wf(),
                sy.wf(),
                self.can_scale(sx, sy),
                forall|k: int|
                    0 <= k < i ==> #[trigger] tips@[k] == scaled_point(self.tips@[k], sx, sy),
                forall|k: int| i <= k < NUM_TIPS ==> #[trigger] tips@[k] == self.tips@[k],
            decreases NUM_TIPS - i,
        {
            let (x, y): Point = tips[i];
            assert(fits_i64(sx.apply(self.tips@[i as int].0 as int)));
            tips[i] = (sx.scale_value(x), sy.scale_value(y));
            i = i + 1;
        }
        Palm { bbox: self.bbox.scale(sx, sy), tips, score: self.score }
    }

    /// The detection in image pixel space: shifted from center-relative to
    /// top-left-relative model coordinates, then scaled by `sx` and `sy`.
    pub fn to_image_space(&self, sx: Scale, sy: Scale) -> (r: Palm)
        requires
            sx.wf(),
            sy.wf(),
            self.can_map(sx, sy),
        ensures
            r.is_image_of(*self, sx, sy),
    {
        assert forall|i: int| 0 <= i < NUM_TIPS implies fits_i64(
            #[trigger] self.tips@[i].0 + HALF_MODEL,
        ) && fits_i64(self.tips@[i].1 + HALF_MODEL) by {
            assert(maps_within(self.tips@[i].0 as int, sx));
            assert(maps_within(self.tips@[i].1 as int, sy));
        }
        let moved: Palm = self.shift(HALF_MODEL, HALF_MODEL);
        assert forall|i: int| 0 <= i < NUM_TIPS implies fits_i64(sx.apply(#[trigger] moved.tips@[i].0 as int))
            && fits_i64(sy.apply(moved.tips@[i].1 as int)) by {
            assert(maps_within(self.tips@[i].0 as int, sx));
            assert(moved.tips@[i] == shifted_point(self.tips@[i], HALF_MODEL as int, HALF_MODEL as int));
        }
        moved.scale(sx, sy)
    }
}

/// With a scale of one on both axes, mapping to image space and then moving
/// back by half the model side gives the model-space coordinates unchanged.
pub proof fn lemma_unit_scale_round_trip(p: Palm, q: Palm, s: Scale)
    requires
        s.wf(),
        s.num == s.den,
        p.can_map(s, s),
        q.is_image_of(p, s, s),
    ensures
        q.bbox.shifted(-HALF_MODEL, -HALF_MODEL) == p.bbox,
        q.score == p.score,
        forall|i: int|
            0 <= i < NUM_TIPS ==> shifted_point(#[trigger] q.tips@[i], -HALF_MODEL, -HALF_MODEL)
                == p.tips@[i],
{
    assert forall|v: int| #[trigger] s.apply(v) == v by {
        vstd::arithmetic::div_mod::lemma_div_multiples_vanish(v, s.den as int);
        assert(v * s.num == s.den * v) by (nonlinear_arith)
            requires
                s.num == s.den,
        ;
    }
    assert forall|i: int| 0 <= i < NUM_TIPS implies shifted_point(
        #[trigger] q.tips@[i],
        -HALF_MODEL,
        -HALF_MODEL,
    ) == p.tips@[i] by {
        assert(maps_within(p.tips@[i].0 as int, s));
        assert(maps_within(p.tips@[i].1 as int, s));
    }
}

} // verus!
