use palm_detect::decode::{decode, decode_row};
use palm_detect::anchors::{build_anchor_grid, Anchor};
use palm_detect::geometry::{BBox, Scale};
use palm_detect::palm::Palm;
use palm_detect::suppress::suppress;

fn palm(x: i64, y: i64, w: i64, h: i64, score: i64) -> Palm {
    Palm { bbox: BBox { x, y, w, h }, tips: [(x, y); 7], score }
}

fn scores(ps: &[Palm]) -> Vec<i64> {
    ps.iter().map(|p| p.score).collect()
}

#[test]
fn keeps_best_of_overlapping_pair() {
    let c = vec![palm(0, 0, 30000, 15000, 850), palm(0, 0, 30000, 30000, 900)];
    let r = suppress(&c, 600, 250);
    assert_eq!(scores(&r), vec![900]);
    assert_eq!(r[0].bbox, BBox { x: 0, y: 0, w: 30000, h: 30000 });
}

#[test]
fn keeps_disjoint_pair_by_descending_score() {
    let c = vec![palm(0, 0, 1000, 1000, 700), palm(50000, 50000, 1000, 1000, 800)];
    let r = suppress(&c, 600, 250);
    assert_eq!(scores(&r), vec![800, 700]);
}

#[test]
fn stops_below_score_threshold() {
    let c = vec![palm(0, 0, 1000, 1000, 599), palm(5000, 0, 1000, 1000, 600), palm(9000, 0, 1000, 1000, 100)];
    let r = suppress(&c, 600, 250);
    assert_eq!(scores(&r), vec![600]);
}

#[test]
fn highest_threshold_keeps_nothing() {
    let c = vec![palm(0, 0, 1000, 1000, 950), palm(5000, 0, 1000, 1000, 10_000)];
    assert!(suppress(&c, i64::MAX, 250).is_empty());
}

#[test]
fn empty_candidates_give_empty_result() {
    assert!(suppress(&Vec::new(), 0, 250).is_empty());
}

#[test]
fn zero_iou_threshold_keeps_one_of_a_cluster() {
    let c = vec![
        palm(0, 0, 10000, 10000, 700),
        palm(1000, 1000, 10000, 10000, 900),
        palm(2000, 0, 10000, 10000, 800),
    ];
    let r = suppress(&c, 0, 0);
    assert_eq!(scores(&r), vec![900]);
}

#[test]
fn zero_iou_threshold_keeps_at_most_one_overall() {
    let c = vec![palm(0, 0, 1000, 1000, 700), palm(90000, 90000, 1000, 1000, 900)];
    assert_eq!(suppress(&c, 0, 0).len(), 1);
}

#[test]
fn equal_scores_keep_earliest_first() {
    let c = vec![
        palm(0, 0, 1000, 1000, 800),
        palm(40000, 0, 1000, 1000, 800),
        palm(0, 200, 1000, 1000, 800),
    ];
    let r = suppress(&c, 600, 250);
    assert_eq!(r.len(), 2);
    assert_eq!(r[0].bbox.x, 0);
    assert_eq!(r[0].bbox.y, 0);
    assert_eq!(r[1].bbox.x, 40000);
}

#[test]
fn output_is_sorted_and_apart() {
    let mut c = Vec::new();
    for i in 0..40i64 {
        c.push(palm((i % 7) * 3000, (i % 5) * 2500, 6000, 6000, (i * 37) % 1000));
    }
    let r = suppress(&c, 100, 300);
    for i in 0..r.len() {
        for j in 0..r.len() {
            if i < j {
                assert!(r[i].score >= r[j].score);
            }
            if i != j {
                assert!(!r[i].bbox.iou_at_least(r[j].bbox, 300));
            }
        }
    }
    assert!(!r.is_empty());
}

#[test]
fn zero_area_candidate_is_kept_once() {
    let c = vec![palm(100, 100, 0, 0, 900), palm(100, 100, 0, 0, 800)];
    let r = suppress(&c, 600, 250);
    assert_eq!(scores(&r), vec![900, 800]);
}

#[test]
fn decodes_one_row() {
    let mut reg = vec![0i32; 18];
    reg[0] = 1000;
    reg[1] = -2000;
    reg[2] = 5001;
    reg[3] = 4000;
    for j in 0..7 {
        reg[4 + 2 * j] = j as i32 * 10;
        reg[5 + 2 * j] = -(j as i32) * 10;
    }
    let p = decode_row(&reg, 0, 777, Anchor { dx: -12000, dy: 8000 });
    assert_eq!(p.bbox, BBox { x: -11000 - 2500, y: 6000 - 2000, w: 5001, h: 4000 });
    assert_eq!(p.score, 777);
    for j in 0..7 {
        assert_eq!(p.tips[j], (-11000 + j as i64 * 10, 6000 - j as i64 * 10));
    }
}

#[test]
fn decode_rounds_half_size_down() {
    let mut reg = vec![0i32; 18];
    reg[2] = -3;
    reg[3] = 3;
    let p = decode_row(&reg, 0, 0, Anchor { dx: 0, dy: 0 });
    assert_eq!(p.bbox.x, 2);
    assert_eq!(p.bbox.y, -1);
}

#[test]
fn decode_keeps_row_order() {
    let grid = build_anchor_grid();
    let mut reg = vec![0i32; 2016 * 18];
    let mut sc = vec![0i32; 2016];
    for i in 0..2016 {
        reg[i * 18 + 2] = 2000;
        reg[i * 18 + 3] = 4000;
        sc[i] = i as i32;
    }
    let d = decode(&reg, &sc, &grid);
    assert_eq!(d.len(), 2016);
    for i in 0..2016 {
        assert_eq!(d[i].score, i as i64);
        assert_eq!(d[i].bbox, BBox { x: grid[i].dx - 1000, y: grid[i].dy - 2000, w: 2000, h: 4000 });
        assert_eq!(d[i].tips[3], (grid[i].dx, grid[i].dy));
    }
}

#[test]
fn palm_shift_and_scale() {
    let mut p = palm(1000, 2000, 300, 400, 5);
    p.tips[6] = (-7, 9);
    let s = p.shift(10, 20);
    assert_eq!(s.bbox, BBox { x: 1010, y: 2020, w: 300, h: 400 });
    assert_eq!(s.tips[0], (1010, 2020));
    assert_eq!(s.tips[6], (3, 29));
    assert_eq!(s.score, 5);
    let t = p.scale(Scale { num: 2, den: 1 }, Scale { num: 1, den: 2 });
    assert_eq!(t.bbox, BBox { x: 2000, y: 1000, w: 600, h: 200 });
    assert_eq!(t.tips[6], (-14, 4));
}

#[test]
fn unit_scale_round_trip() {
    let mut p = palm(-5000, 7000, 3000, 2000, 42);
    p.tips[2] = (-96000, 95999);
    let one = Scale { num: 192, den: 192 };
    let q = p.to_image_space(one, one);
    assert_eq!(q.bbox.shift(-96000, -96000), p.bbox);
    for j in 0..7 {
        assert_eq!((q.tips[j].0 - 96000, q.tips[j].1 - 96000), p.tips[j]);
    }
    assert_eq!(q.score, 42);
}

#[test]
fn image_space_mapping() {
    let p = palm(-22000, -22000, 20000, 20000, 950);
    let q = p.to_image_space(Scale { num: 640, den: 192 }, Scale { num: 480, den: 192 });
    assert_eq!(q.bbox, BBox { x: 246666, y: 185000, w: 66666, h: 50000 });
    assert_eq!(q.tips[0], (246666, 185000));
}
