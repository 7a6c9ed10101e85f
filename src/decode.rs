use vstd::prelude::*;

use crate::anchors::{anchor_inside, Anchor};
use crate::config::{NUM_ANCHORS, NUM_TIPS, ROW_WIDTH};
use crate::geometry::{floor_div, BBox};
use crate::palm::{Palm, Point};

verus! {

/// `p` is row `row` of the regression tensor decoded against anchor `a`,
/// with score `score`: the box center is the anchor plus the first two
/// values, the size is the next two, and each landmark is its pair of
/// values added to the center.
pub open spec fn decodes_row(p: Palm, row: Seq<i32>, score: i32, a: Anchor) -> bool {
    let cx = a.dx + row[0];
    let cy = a.dy + row[1];
    &&& p.bbox.x == cx - row[2] / 2
    &&& p.bbox.y == cy - row[3] / 2
    &&& p.bbox.w == row[2]
    &&& p.bbox.h == row[3]
    &&& p.score == score
    &&& forall|j: int|
        0 <= j < NUM_TIPS ==> (#[trigger] p.tips@[j]).0 == row[4 + 2 * j] + cx && p.tips@[j].1
            == row[5 + 2 * j] + cy
}

/// Row `i` of a flat regression tensor.
pub open spec fn reg_row(regressors: Seq<i32>, i: int) -> Seq<i32> {
    regressors.subrange(i * ROW_WIDTH, i * ROW_WIDTH + ROW_WIDTH)
}

/// Magnitude bound on every coordinate of a decoded detection.
pub open spec fn decoded_limit() -> int {
    0x200000000
}

/// Every coordinate and size of the detection lies within `decoded_limit()`.
pub open spec fn decoded_bounded(p: Palm) -> bool {
    &&& -decoded_limit() <= p.bbox.x <= decoded_limit()
    &&& -decoded_limit() <= p.bbox.y <= decoded_limit()
    &&& -decoded_limit() <= p.bbox.w <= decoded_limit()
    &&& -decoded_limit() <= p.bbox.h <= decoded_limit()
    &&& forall|j: int|
        0 <= j < NUM_TIPS ==> -decoded_limit() <= (#[trigger] p.tips@[j]).0 <= decoded_limit()
            && -decoded_limit() <= p.tips@[j].1 <= decoded_limit()
}

/// Decodes row `i` of the regression tensor against anchor `a`.
pub fn decode_row(regressors: &Vec<i32>, i: usize, score: i32, a: Anchor) -> (r: Palm)
    requires
        (i + 1) * ROW_WIDTH <= regressors.len(),
        anchor_inside(a),
    ensures
        decodes_row(r, reg_row(regressors@, i as int), score, a),
        decoded_bounded(r),
{
    let base: usize = i * ROW_WIDTH;
    let ghost row = reg_row(regressors@, i as int);
    assert(forall|k: int| 0 <= k < ROW_WIDTH ==> row[k] == regressors@[base + k]);
    let cx: i64 = a.dx + regressors[base] as i64;
    let cy: i64 = a.dy + regressors[base + 1] as i64;
    let w: i64 = regressors[base + 2] as i64;
    let h: i64 = regressors[base + 3] as i64;
    let half_w: i64 = floor_div(w as i128, 2) as i64;
    let half_h: i64 = floor_div(h as i128, 2) as i64;
    let mut tips: [Point; 7] = [(0, 0); 7];
    let mut j: usize = 0;
    while j < NUM_TIPS
        invariant
            j <= NUM_TIPS,
            base == i * ROW_WIDTH,
            base + ROW_WIDTH <= regressors.len(),
            row == reg_row(regressors@, i as int),
            forall|k: int| 0 <= k < ROW_WIDTH ==> row[k] == regressors@[base + k],
            cx == a.dx + row[0],
            cy == a.dy + row[1],
            anchor_inside(a),
            forall|k: int|
                0 <= k < j ==> (#[trigger] tips@[k]).0 == row[4 + 2 * k] + cx && tips@[k].1 == row[5
                    + 2 * k] + cy,
        decreases NUM_TIPS - j,
    {
        let tx: i64 = regressors[base + 4 + 2 * j] as i64 + cx;
        let ty: i64 = regressors[base + 5 + 2 * j] as i64 + cy;
        tips[j] = (tx, ty);
        j = j + 1;
    }
    Palm { bbox: BBox { x: cx - half_w, y: cy - half_h, w, h }, tips, score: score as i64 }
}

/// Decodes every row of the detector's output into a model-space
/// detection, index-aligned with the rows and the anchors.
pub fn decode(regressors: &Vec<i32>, scores: &Vec<i32>, anchors: &Vec<Anchor>) -> (r: Vec<Palm>)
    requires
        regressors.len() == NUM_ANCHORS * ROW_WIDTH,
        scores.len() == NUM_ANCHORS,
        anchors.len() == NUM_ANCHORS,
        forall|k: int| 0 <= k < NUM_ANCHORS ==> anchor_inside(#[trigger] anchors[k]),
    ensures
        r.len() == NUM_ANCHORS,
        forall|i: int|
            0 <= i < NUM_ANCHORS ==> decodes_row(
                #[trigger] r[i],
                reg_row(regressors@, i),
                scores[i],
                anchors[i],
            ),
        forall|i: int| 0 <= i < NUM_ANCHORS ==> decoded_bounded(#[trigger] r[i]),
{
    let mut out: Vec<Palm> = Vec::new();
    let mut i: usize = 0;
    while i < NUM_ANCHORS
        invariant
            i <= NUM_ANCHORS,
            regressors.len() == NUM_ANCHORS * ROW_WIDTH,
            scores.len() == NUM_ANCHORS,
            anchors.len() == NUM_ANCHORS,
            forall|k: int| 0 <= k < NUM_ANCHORS ==> anchor_inside(#[trigger] anchors[k]),
            out.len() == i,
            forall|k: int|
                0 <= k < i ==> decodes_row(
                    #[trigger] out[k],
                    reg_row(regressors@, k),
                    scores[k],
                    anchors[k],
                ),
            forall|k: int| 0 <= k < i ==> decoded_bounded(#[trigger] out[k]),
        decreases NUM_ANCHORS - i,
    {
        let p: Palm = decode_row(regressors, i, scores[i], anchors[i]);
        out.push(p);
        i = i + 1;
    }
    out
}

} // verus!
