use vstd::prelude::*;
use vstd::arithmetic::div_mod::lemma_div_is_ordered;

use crate::anchors::{anchor_at, build_anchor_grid, Anchor};
use crate::config::{MODEL_SIZE, NUM_ANCHORS, NUM_TIPS, ROW_WIDTH};
use crate::decode::{decode, decoded_bounded, decoded_limit, decodes_row, reg_row};
use crate::geometry::{fits_i64, Scale};
use crate::palm::{maps_within, Palm};
use crate::suppress::{lemma_suppressed_members, suppress, suppressed, suppression_order};

verus! {

/// One output tensor of the detector: its shape and its values in row-major
/// order, in fixed-point units.
pub struct RawTensor {
    pub shape: Vec<usize>,
    pub data: Vec<i32>,
}

/// Why a frame's detector output could not be decoded.
#[derive(Clone, Copy, Debug, PartialEq, Eq, Structural)]
pub enum DetectError {
    /// The output tensors are not one `1 x 2016 x 18` regression tensor
    /// followed by one `1 x 2016 x 1` score tensor.
    ShapeMismatch,
}

/// The tensor has shape `1 x NUM_ANCHORS x width` and holds that many values.
pub open spec fn has_rows(t: RawTensor, width: int) -> bool {
    &&& t.shape@ == seq![1usize, NUM_ANCHORS, width as usize]
    &&& t.data.len() == NUM_ANCHORS * width
}

/// The detector's outputs follow its fixed layout: regressions, then scores.
pub open spec fn outputs_valid(outputs: Seq<RawTensor>) -> bool {
    &&& outputs.len() == 2
    &&& has_rows(outputs[0], ROW_WIDTH as int)
    &&& has_rows(outputs[1], 1)
}

/// `d` holds every output row decoded against the detector's anchors.
pub open spec fn is_decoding(d: Seq<Palm>, regressors: Seq<i32>, scores: Seq<i32>) -> bool {
    &&& d.len() == NUM_ANCHORS
    &&& forall|i: int|
        0 <= i < NUM_ANCHORS ==> decodes_row(
            #[trigger] d[i],
            reg_row(regressors, i),
            scores[i],
            anchor_at(i),
        )
}

/// `r` is the first `max_results` of `kept` (or all of them, if fewer),
/// each mapped to image space with scales `sx` and `sy`.
pub open spec fn image_prefix(r: Seq<Palm>, kept: Seq<Palm>, max_results: int, sx: Scale, sy: Scale) -> bool {
    &&& r.len() == if max_results < kept.len() {
        max_results
    } else {
        kept.len() as int
    }
    &&& forall|i: int| 0 <= i < r.len() ==> (#[trigger] r[i]).is_image_of(kept[i], sx, sy)
}

/// Scale from model pixels to `image_side` image pixels.
pub open spec fn model_to_image(image_side: u32) -> Scale {
    Scale { num: image_side, den: MODEL_SIZE as u32 }
}

/// `r` is what the pipeline yields for these outputs: the detections of
/// some decoding of all rows that greedy suppression keeps, capped at
/// `max_results` and mapped to an image of the given size.
pub open spec fn detected(
    r: Seq<Palm>,
    regressors: Seq<i32>,
    scores: Seq<i32>,
    image_width: u32,
    image_height: u32,
    score_threshold: int,
    iou_threshold: int,
    max_results: int,
) -> bool {
    exists|d: Seq<Palm>|
        is_decoding(d, regressors, scores) && image_prefix(
            r,
            suppressed(d, score_threshold, iou_threshold),
            max_results,
            model_to_image(image_width),
            model_to_image(image_height),
        )
}

/// A frame's outputs have a single decoding, so `detected` determines the
/// detections exactly.
pub proof fn lemma_decoding_unique(d1: Seq<Palm>, d2: Seq<Palm>, regressors: Seq<i32>, scores: Seq<i32>)
    requires
        is_decoding(d1, regressors, scores),
        is_decoding(d2, regressors, scores),
    ensures
        d1 == d2,
{
    assert forall|i: int| 0 <= i < NUM_ANCHORS implies d1[i] == d2[i] by {
        let (p, q) = (d1[i], d2[i]);
        assert(decodes_row(p, reg_row(regressors, i), scores[i], anchor_at(i)));
        assert(decodes_row(q, reg_row(regressors, i), scores[i], anchor_at(i)));
        assert forall|j: int| 0 <= j < NUM_TIPS implies p.tips[j] == q.tips[j] by {
            assert(p.tips@[j] == q.tips@[j]);
        }
        assert(p.tips =~= q.tips);
        assert(p.bbox == q.bbox);
    }
    assert(d1 =~= d2);
}

/// Whether the outputs follow the detector's fixed layout.
pub fn check_outputs(outputs: &Vec<RawTensor>) -> (r: bool)
    ensures
        r == outputs_valid(outputs@),
{
    if outputs.len() != 2 {
        return false;
    }
    let reg: &RawTensor = &outputs[0];
    let sc: &RawTensor = &outputs[1];
    let reg_ok: bool = reg.shape.len() == 3 && reg.shape[0] == 1 && reg.shape[1] == NUM_ANCHORS
        && reg.shape[2] == ROW_WIDTH && reg.data.len() == NUM_ANCHORS * ROW_WIDTH;
    let sc_ok: bool = sc.shape.len() == 3 && sc.shape[0] == 1 && sc.shape[1] == NUM_ANCHORS
        && sc.shape[2] == 1 && sc.data.len() == NUM_ANCHORS;
    proof {
        if reg_ok {
            assert(reg.shape@ =~= seq![1usize, NUM_ANCHORS, ROW_WIDTH]);
        }
        if sc_ok {
            assert(sc.shape@ =~= seq![1usize, NUM_ANCHORS, 1usize]);
        }
    }
    reg_ok && sc_ok
}

/// A decoded coordinate maps to image space within `i64`.
proof fn lemma_decoded_maps(v: int, s: Scale)
    requires
        -decoded_limit() <= v <= decoded_limit(),
        s.den == MODEL_SIZE,
    ensures
        maps_within(v, s),
        fits_i64(s.apply(v)),
{
    let lim: int = 0x40000000000000000;
    let a: int = v + 96000;
    let n: int = s.num as int;
    assert(-lim <= a * n <= lim) by (nonlinear_arith)
        requires
            -0x300000000 <= a <= 0x300000000,
            0 <= n <= 0xffffffff,
            lim == 0x40000000000000000,
    ;
    assert(-lim <= v * n <= lim) by (nonlinear_arith)
        requires
            -0x300000000 <= v <= 0x300000000,
            0 <= n <= 0xffffffff,
            lim == 0x40000000000000000,
    ;
    lemma_div_is_ordered(-lim, a * n, 192);
    lemma_div_is_ordered(a * n, lim, 192);
    lemma_div_is_ordered(-lim, v * n, 192);
    lemma_div_is_ordered(v * n, lim, 192);
    assert(lim / 192 <= i64::MAX && -lim / 192 >= i64::MIN);
}

/// Detects palms in one frame's detector output: checks the output layout,
/// decodes every row against the anchor grid, keeps detections by greedy
/// suppression, and maps the first `max_results` of them to an image of
/// `image_width x image_height` pixels.
pub fn get_palm(
    outputs: &Vec<RawTensor>,
    image_width: u32,
    image_height: u32,
    score_threshold: i64,
    iou_threshold: i32,
    max_results: usize,
) -> (r: Result<Vec<Palm>, DetectError>)
    ensures
        r is Err <==> !outputs_valid(outputs@),
        r is Err ==> r == Err::<Vec<Palm>, DetectError>(DetectError::ShapeMismatch),
        r is Ok ==> detected(
            r->Ok_0@,
            outputs@[0].data@,
            outputs@[1].data@,
            image_width,
            image_height,
            score_threshold as int,
            iou_threshold as int,
            max_results as int,
        ),
{
    if !check_outputs(outputs) {
        return Err(DetectError::ShapeMismatch);
    }
    let regressors: &Vec<i32> = &outputs[0].data;
    let scores: &Vec<i32> = &outputs[1].data;
    let anchors: Vec<Anchor> = build_anchor_grid();
    let candidates: Vec<Palm> = decode(regressors, scores, &anchors);
    assert forall|k: int| 0 <= k < candidates.len() implies (#[trigger] candidates[k]).bbox.bounded() by {
        assert(decoded_bounded(candidates[k]));
    }
    let kept: Vec<Palm> = suppress(&candidates, score_threshold, iou_threshold);
    proof {
        lemma_suppressed_members(candidates@, score_threshold as int, iou_threshold as int);
        assert forall|k: int| 0 <= k < kept.len() implies decoded_bounded(#[trigger] kept[k]) by {
            let j = suppression_order(candidates@, score_threshold as int, iou_threshold as int)[k];
            assert(decoded_bounded(candidates[j]));
        }
    }
    let sx: Scale = Scale { num: image_width, den: MODEL_SIZE as u32 };
    let sy: Scale = Scale { num: image_height, den: MODEL_SIZE as u32 };
    let limit: usize = if max_results < kept.len() { max_results } else { kept.len() };
    let mut out: Vec<Palm> = Vec::new();
    let mut i: usize = 0;
    while i < limit
        invariant
            limit <= kept.len(),
            i <= limit,
            out.len() == i,
            sx == model_to_image(image_width),
            sy == model_to_image(image_height),
            forall|k: int| 0 <= k < kept.len() ==> decoded_bounded(#[trigger] kept[k]),
            forall|k: int| 0 <= k < i ==> (#[trigger] out[k]).is_image_of(kept[k], sx, sy),
        decreases limit - i,
    {
        let p: Palm = kept[i];
        proof {
            assert(decoded_bounded(p));
            lemma_decoded_maps(p.bbox.x as int, sx);
            lemma_decoded_maps(p.bbox.y as int, sy);
            lemma_decoded_maps(p.bbox.w as int, sx);
            lemma_decoded_maps(p.bbox.h as int, sy);
            assert forall|j: int| 0 <= j < NUM_TIPS implies maps_within(#[trigger] p.tips@[j].0 as int, sx)
                && maps_within(p.tips@[j].1 as int, sy) by {
                lemma_decoded_maps(p.tips@[j].0 as int, sx);
                lemma_decoded_maps(p.tips@[j].1 as int, sy);
            }
        }
        out.push(p.to_image_space(sx, sy));
        i = i + 1;
    }
    proof {
        assert(is_decoding(candidates@, regressors@, scores@));
        assert(image_prefix(
            out@,
            suppressed(candidates@, score_threshold as int, iou_threshold as int),
            max_results as int,
            sx,
            sy,
        ));
    }
    Ok(out)
}

} // verus!
