use palm_detect::geometry::{floor_div, BBox, Ratio, Scale};

fn bx(x: i64, y: i64, w: i64, h: i64) -> BBox {
    BBox { x, y, w, h }
}

#[test]
fn corners_of_box() {
    assert_eq!(bx(1000, 2000, 3000, 4000).to_xyxy(), (1000, 2000, 4000, 6000));
}

#[test]
fn area_and_intersection() {
    let a = bx(0, 0, 2000, 2000);
    let b = bx(1000, 0, 2000, 2000);
    assert_eq!(a.area(), 4_000_000);
    assert_eq!(a.intersection(b), 2_000_000);
    assert_eq!(a.union(b), 6_000_000);
    assert_eq!(a.iou(b), Ratio { num: 2_000_000, den: 6_000_000 });
}

#[test]
fn iou_is_symmetric() {
    let a = bx(-500, 300, 2500, 1700);
    let b = bx(700, -100, 1200, 3000);
    assert_eq!(a.iou(b), b.iou(a));
    assert_eq!(a.intersection(b), b.intersection(a));
}

#[test]
fn iou_of_box_with_itself_is_one() {
    let a = bx(100, 200, 3000, 4000);
    let r = a.iou(a);
    assert_eq!(r.num, r.den);
    assert!(r.den > 0);
    assert!(a.iou_at_least(a, 1000));
}

#[test]
fn iou_is_between_zero_and_one() {
    let boxes = [bx(0, 0, 1000, 1000), bx(500, 500, 1000, 1000), bx(5000, 5000, 10, 10), bx(0, 0, 0, 0)];
    for a in boxes.iter() {
        for b in boxes.iter() {
            let r = a.iou(*b);
            assert!(r.den > 0);
            assert!(0 <= r.num && r.num <= r.den);
        }
    }
}

#[test]
fn disjoint_boxes_do_not_overlap() {
    let a = bx(0, 0, 1000, 1000);
    let b = bx(3000, 3000, 1000, 1000);
    assert_eq!(a.intersection(b), 0);
    assert_eq!(a.iou(b).num, 0);
}

#[test]
fn zero_area_boxes_have_zero_iou() {
    let a = bx(500, 500, 0, 0);
    assert_eq!(a.iou(a), Ratio { num: 0, den: 1 });
    assert!(!a.iou_at_least(a, 1));
    assert!(a.iou_at_least(a, 0));
}

#[test]
fn ratio_threshold_comparison() {
    let half = Ratio { num: 1, den: 2 };
    assert!(half.at_least(250));
    assert!(half.at_least(500));
    assert!(!half.at_least(501));
}

#[test]
fn iou_threshold_on_boxes() {
    let a = bx(0, 0, 30000, 30000);
    let b = bx(0, 0, 30000, 15000);
    assert_eq!(a.iou(b), Ratio { num: 450_000_000, den: 900_000_000 });
    assert!(a.iou_at_least(b, 250));
    assert!(a.iou_at_least(b, 500));
    assert!(!a.iou_at_least(b, 501));
}

#[test]
fn shift_moves_corner_only() {
    assert_eq!(bx(1000, 2000, 300, 400).shift(96000, -5), bx(97000, 1995, 300, 400));
}

#[test]
fn scale_box_per_axis() {
    let sx = Scale { num: 640, den: 192 };
    let sy = Scale { num: 480, den: 192 };
    assert_eq!(bx(96000, 96000, 19200, 19200).scale(sx, sy), bx(320000, 240000, 64000, 48000));
}

#[test]
fn scale_rounds_toward_negative_infinity() {
    let s = Scale { num: 1, den: 2 };
    assert_eq!(s.scale_value(3), 1);
    assert_eq!(s.scale_value(-3), -2);
    assert_eq!(s.scale_value(-4), -2);
    assert_eq!(floor_div(-1, 3), -1);
    assert_eq!(floor_div(-3, 3), -1);
    assert_eq!(floor_div(7, 3), 2);
}
