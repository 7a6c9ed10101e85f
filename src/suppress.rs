use vstd::prelude::*;

use crate::geometry::{lemma_iou_symmetric, BBox};
use crate::palm::Palm;

verus! {

/// Number of candidates still marked alive.
pub open spec fn alive_count(alive: Seq<bool>) -> nat
    decreases alive.len(),
{
    if alive.len() == 0 {
        0
    } else {
        alive_count(alive.drop_last()) + if alive.last() {
            1nat
        } else {
            0nat
        }
    }
}

/// Index of the highest-scoring alive candidate among the first `n`, the
/// earliest one among equal scores; `-1` when none of them is alive.
pub open spec fn best_upto(c: Seq<Palm>, alive: Seq<bool>, n: int) -> int
    decreases n,
{
    if n <= 0 {
        -1
    } else {
        let b = best_upto(c, alive, n - 1);
        if alive[n - 1] && (b < 0 || c[n - 1].score > c[b].score) {
            n - 1
        } else {
            b
        }
    }
}

/// The alive marks after accepting candidate `b`: `b` itself and every
/// candidate whose IoU with it reaches the threshold `t` are dropped.
pub open spec fn survivors(c: Seq<Palm>, alive: Seq<bool>, b: int, t: int) -> Seq<bool> {
    Seq::new(
        alive.len(),
        |j: int| alive[j] && j != b && !c[j].bbox.iou_reaches(c[b].bbox, t),
    )
}

/// Indices accepted by greedy suppression from the alive candidates: take
/// the best alive candidate while its score reaches `st`, drop what it
/// overlaps, and repeat.
pub open spec fn greedy_from(c: Seq<Palm>, alive: Seq<bool>, st: int, t: int) -> Seq<int>
    decreases alive_count(alive),
{
    let b = best_upto(c, alive, alive.len() as int);
    if b < 0 || c[b].score < st {
        seq![]
    } else {
        proof {
            lemma_best_upto(c, alive, alive.len() as int);
            lemma_count_shrinks(alive, survivors(c, alive, b, t), b);
        }
        seq![b] + greedy_from(c, survivors(c, alive, b, t), st, t)
    }
}

/// Indices kept by greedy suppression of all candidates, in acceptance order.
pub open spec fn suppression_order(c: Seq<Palm>, st: int, t: int) -> Seq<int> {
    greedy_from(c, Seq::new(c.len(), |j: int| true), st, t)
}

/// The detections kept by greedy suppression, in acceptance order.
pub open spec fn suppressed(c: Seq<Palm>, st: int, t: int) -> Seq<Palm> {
    suppression_order(c, st, t).map_values(|k: int| c[k])
}

/// `best_upto` picks an alive candidate of the highest score, or reports
/// that none is alive.
pub proof fn lemma_best_upto(c: Seq<Palm>, alive: Seq<bool>, n: int)
    requires
        0 <= n <= alive.len(),
    ensures
        best_upto(c, alive, n) == -1 ==> forall|j: int| 0 <= j < n ==> !alive[j],
        best_upto(c, alive, n) != -1 ==> {
            let b = best_upto(c, alive, n);
            &&& 0 <= b < n
            &&& alive[b]
            &&& forall|j: int| 0 <= j < n && alive[j] ==> c[j].score <= c[b].score
        },
    decreases n,
{
    if n > 0 {
        lemma_best_upto(c, alive, n - 1);
    }
}

/// Dropping alive marks never raises the count, and dropping one lowers it.
pub proof fn lemma_count_shrinks(old: Seq<bool>, new: Seq<bool>, b: int)
    requires
        old.len() == new.len(),
        forall|j: int| 0 <= j < old.len() && new[j] ==> old[j],
    ensures
        alive_count(new) <= alive_count(old),
        0 <= b < old.len() && old[b] && !new[b] ==> alive_count(new) < alive_count(old),
    decreases old.len(),
{
    if old.len() > 0 {
        let n = old.len() - 1;
        assert forall|j: int| 0 <= j < n && new.drop_last()[j] implies old.drop_last()[j] by {
            assert(new[j]);
        }
        lemma_count_shrinks(old.drop_last(), new.drop_last(), b);
        if 0 <= b < n && old[b] && !new[b] {
            assert(old.drop_last()[b] && !new.drop_last()[b]);
        }
    }
}

/// What greedy suppression from a set of alive marks yields: alive
/// candidates reaching the score threshold, in order of score, none
/// overlapping an earlier one at or beyond the IoU threshold.
proof fn lemma_greedy(c: Seq<Palm>, alive: Seq<bool>, st: int, t: int)
    ensures
        ({
            let g = greedy_from(c, alive, st, t);
            &&& forall|i: int|
                0 <= i < g.len() ==> 0 <= #[trigger] g[i] < alive.len() && alive[g[i]] && c[g[i]].score
                    >= st
            &&& forall|i: int, j: int|
                0 <= i < j < g.len() ==> c[#[trigger] g[i]].score >= c[#[trigger] g[j]].score
            &&& forall|i: int, j: int|
                0 <= i < j < g.len() ==> !c[#[trigger] g[j]].bbox.iou_reaches(
                    c[#[trigger] g[i]].bbox,
                    t,
                )
        }),
    decreases alive_count(alive),
{
    let g = greedy_from(c, alive, st, t);
    let b = best_upto(c, alive, alive.len() as int);
    lemma_best_upto(c, alive, alive.len() as int);
    if b < 0 || c[b].score < st {
        assert(g.len() == 0);
    } else {
        let surv = survivors(c, alive, b, t);
        lemma_count_shrinks(alive, surv, b);
        lemma_greedy(c, surv, st, t);
        let rest = greedy_from(c, surv, st, t);
        assert(g == seq![b] + rest);
        assert forall|i: int| 0 <= i < rest.len() implies c[#[trigger] rest[i]].score <= c[b].score
            && !c[rest[i]].bbox.iou_reaches(c[b].bbox, t) && alive[rest[i]] by {
            assert(surv[rest[i]]);
        }
        assert forall|i: int|
            0 <= i < g.len() implies 0 <= #[trigger] g[i] < alive.len() && alive[g[i]]
                && c[g[i]].score >= st by {
            if i > 0 {
                assert(g[i] == rest[i - 1]);
            }
        }
        assert forall|i: int, j: int| 0 <= i < j < g.len() implies c[#[trigger] g[i]].score >= c[#[trigger] g[j]].score
            && !c[g[j]].bbox.iou_reaches(c[g[i]].bbox, t) by {
            assert(g[j] == rest[j - 1]);
            if i > 0 {
                assert(g[i] == rest[i - 1]);
            }
        }
    }
}

/// Each kept detection is the candidate at the matching index of
/// `suppression_order`, and its score reaches the score threshold.
pub proof fn lemma_suppressed_members(c: Seq<Palm>, st: int, t: int)
    ensures
        suppressed(c, st, t).len() == suppression_order(c, st, t).len(),
        forall|i: int|
            0 <= i < suppressed(c, st, t).len() ==> {
                let k = #[trigger] suppression_order(c, st, t)[i];
                &&& 0 <= k < c.len()
                &&& suppressed(c, st, t)[i] == c[k]
                &&& c[k].score >= st
            },
{
    lemma_greedy(c, Seq::new(c.len(), |j: int| true), st, t);
}

/// Kept detections come in order of score, highest first.
pub proof fn lemma_suppressed_sorted(c: Seq<Palm>, st: int, t: int)
    ensures
        forall|i: int, j: int|
            0 <= i < j < suppressed(c, st, t).len() ==> (#[trigger] suppressed(c, st, t)[i]).score
                >= (#[trigger] suppressed(c, st, t)[j]).score,
{
    let g = suppression_order(c, st, t);
    lemma_greedy(c, Seq::new(c.len(), |j: int| true), st, t);
    assert forall|i: int, j: int| 0 <= i < j < suppressed(c, st, t).len() implies (
    #[trigger] suppressed(c, st, t)[i]).score >= (#[trigger] suppressed(c, st, t)[j]).score by {
        assert(c[g[i]].score >= c[g[j]].score);
    }
}

/// No two kept detections have an IoU that reaches the IoU threshold.
pub proof fn lemma_suppressed_apart(c: Seq<Palm>, st: int, t: int)
    ensures
        forall|i: int, j: int|
            0 <= i < suppressed(c, st, t).len() && 0 <= j < suppressed(c, st, t).len() && i != j
                ==> !(#[trigger] suppressed(c, st, t)[i]).bbox.iou_reaches(
                (#[trigger] suppressed(c, st, t)[j]).bbox,
                t,
            ),
{
    let g = suppression_order(c, st, t);
    let r = suppressed(c, st, t);
    lemma_greedy(c, Seq::new(c.len(), |j: int| true), st, t);
    assert forall|i: int, j: int|
        0 <= i < r.len() && 0 <= j < r.len() && i != j implies !(#[trigger] r[i]).bbox.iou_reaches(
        (#[trigger] r[j]).bbox,
        t,
    ) by {
        lemma_iou_symmetric(c[g[i]].bbox, c[g[j]].bbox);
        if i < j {
            assert(!c[g[j]].bbox.iou_reaches(c[g[i]].bbox, t));
        } else {
            assert(!c[g[i]].bbox.iou_reaches(c[g[j]].bbox, t));
        }
    }
}

/// Nothing is kept when every candidate scores below the score threshold.
pub proof fn lemma_suppressed_none_above(c: Seq<Palm>, st: int, t: int)
    requires
        forall|k: int| 0 <= k < c.len() ==> (#[trigger] c[k]).score < st,
    ensures
        suppressed(c, st, t).len() == 0,
{
    lemma_suppressed_members(c, st, t);
    if suppressed(c, st, t).len() > 0 {
        let k = suppression_order(c, st, t)[0];
        assert(c[k].score >= st);
    }
}

/// Any two boxes overlap enough for an IoU threshold that is not positive.
pub proof fn lemma_iou_reaches_nonpositive(a: BBox, b: BBox, t: int)
    requires
        t <= 0,
    ensures
        a.iou_reaches(b, t),
{
    let ow = a.overlap_w(b);
    let oh = a.overlap_h(b);
    assert(ow * oh >= 0) by (nonlinear_arith)
        requires
            ow >= 0,
            oh >= 0,
    ;
    let (num, den) = a.iou_spec(b);
    assert(num * 1000 >= 0 && t * den <= 0) by (nonlinear_arith)
        requires
            num >= 0,
            den > 0,
            t <= 0,
    ;
}

/// With an IoU threshold that is not positive every pair of boxes overlaps
/// enough, so at most one detection is kept.
pub proof fn lemma_suppressed_single(c: Seq<Palm>, st: int, t: int)
    requires
        t <= 0,
    ensures
        suppressed(c, st, t).len() <= 1,
{
    let r = suppressed(c, st, t);
    lemma_suppressed_apart(c, st, t);
    if r.len() > 1 {
        lemma_iou_reaches_nonpositive(r[0].bbox, r[1].bbox, t);
        assert(!r[0].bbox.iou_reaches(r[1].bbox, t));
    }
}

/// Index of the best alive candidate, or `candidates.len()` when none is.
fn best_alive(candidates: &Vec<Palm>, alive: &Vec<bool>) -> (r: usize)
    requires
        alive.len() == candidates.len(),
    ensures
        r <= candidates.len(),
        r == candidates.len() ==> best_upto(candidates@, alive@, alive.len() as int) == -1,
        r < candidates.len() ==> best_upto(candidates@, alive@, alive.len() as int) == r,
{
    let n: usize = candidates.len();
    let mut best: usize = n;
    let mut k: usize = 0;
    while k < n
        invariant
            n == candidates.len(),
            alive.len() == n,
            k <= n,
            best == n || best < k,
            best_upto(candidates@, alive@, k as int) == if best == n {
                -1
            } else {
                best as int
            },
        decreases n - k,
    {
        if alive[k] && (best == n || candidates[k].score > candidates[best].score) {
            best = k;
        }
        k = k + 1;
    }
    best
}

/// Marks candidate `b`, and every alive candidate overlapping it at or
/// beyond the threshold `t`, as no longer alive.
fn drop_overlapping(candidates: &Vec<Palm>, alive: &mut Vec<bool>, b: usize, t: i32)
    requires
        old(alive).len() == candidates.len(),
        b < candidates.len(),
        forall|k: int| 0 <= k < candidates.len() ==> (#[trigger] candidates[k]).bbox.bounded(),
    ensures
        final(alive)@ == survivors(candidates@, old(alive)@, b as int, t as int),
{
    let n: usize = candidates.len();
    let ghost before = alive@;
    let mut m: usize = 0;
    while m < n
        invariant
            n == candidates.len(),
            b < n,
            alive.len() == n,
            before.len() == n,
            before == old(alive)@,
            m <= n,
            forall|k: int| 0 <= k < n ==> (#[trigger] candidates[k]).bbox.bounded(),
            forall|j: int|
                0 <= j < m ==> alive[j] == survivors(candidates@, before, b as int, t as int)[j],
            forall|j: int| m <= j < n ==> alive[j] == before[j],
        decreases n - m,
    {
        if alive[m] && (m == b || candidates[m].bbox.iou_at_least(candidates[b].bbox, t)) {
            alive.set(m, false);
        }
        m = m + 1;
    }
    assert(alive@ =~= survivors(candidates@, before, b as int, t as int));
}

/// Greedy non-maximum suppression: repeatedly keeps the highest-scoring
/// remaining candidate (the earliest among equal scores) while its score
/// reaches `score_threshold`, and drops every remaining candidate whose IoU
/// with it reaches `iou_threshold`.
pub fn suppress(candidates: &Vec<Palm>, score_threshold: i64, iou_threshold: i32) -> (r: Vec<Palm>)
    requires
        forall|k: int| 0 <= k < candidates.len() ==> (#[trigger] candidates[k]).bbox.bounded(),
    ensures
        r@ == suppressed(candidates@, score_threshold as int, iou_threshold as int),
{
    let n: usize = candidates.len();
    let ghost c = candidates@;
    let ghost st = score_threshold as int;
    let ghost t = iou_threshold as int;
    let mut alive: Vec<bool> = Vec::new();
    while alive.len() < n
        invariant
            alive.len() <= n,
            forall|j: int| 0 <= j < alive.len() ==> alive[j],
        decreases n - alive.len(),
    {
        alive.push(true);
    }
    assert(alive@ =~= Seq::new(c.len(), |j: int| true));
    let mut kept: Vec<Palm> = Vec::new();
    let ghost mut order: Seq<int> = seq![];
    assert(kept@ =~= order.map_values(|k: int| c[k]));
    loop
        invariant
            n == candidates.len(),
            c == candidates@,
            st == score_threshold as int,
            t == iou_threshold as int,
            alive.len() == n,
            forall|k: int| 0 <= k < n ==> (#[trigger] candidates[k]).bbox.bounded(),
            suppression_order(c, st, t) == order + greedy_from(c, alive@, st, t),
            kept@ == order.map_values(|k: int| c[k]),
        ensures
            kept@ == suppressed(c, st, t),
        decreases alive_count(alive@),
    {
        let best: usize = best_alive(candidates, &alive);
        proof {
            lemma_best_upto(c, alive@, alive.len() as int);
        }
        if best == n || candidates[best].score < score_threshold {
            proof {
                assert(greedy_from(c, alive@, st, t) =~= seq![]);
                assert(order + greedy_from(c, alive@, st, t) =~= order);
            }
            break;
        }
        let ghost prev = alive@;
        kept.push(candidates[best]);
        drop_overlapping(candidates, &mut alive, best, iou_threshold);
        proof {
            lemma_count_shrinks(prev, alive@, best as int);
            assert(greedy_from(c, prev, st, t) == seq![best as int] + greedy_from(c, alive@, st, t));
            let old_order = order;
            order = order + seq![best as int];
            assert(old_order + greedy_from(c, prev, st, t) =~= order + greedy_from(c, alive@, st, t));
            assert(kept@ =~= order.map_values(|k: int| c[k]));
        }
    }
    kept
}

} // verus!
