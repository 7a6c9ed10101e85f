use palm_detect::anchors::{build_anchor_grid, Anchor};
use palm_detect::config::{FINE_ANCHORS, NUM_ANCHORS};

fn expected(k: usize) -> Anchor {
    let (j, rows, repeats, cell) = if k < 1152 { (k, 24i64, 2usize, 8i64) } else { (k - 1152, 12, 6, 16) };
    let cell_index = (j / repeats) as i64;
    let col = cell_index % rows;
    let row = cell_index / rows;
    Anchor {
        dx: cell * 1000 * (2 * col - (rows - 1)) / 2,
        dy: cell * 1000 * (2 * row - (rows - 1)) / 2,
    }
}

#[test]
fn grid_has_all_entries() {
    let grid = build_anchor_grid();
    assert_eq!(grid.len(), 2016);
    assert_eq!(NUM_ANCHORS, 2016);
    assert_eq!(FINE_ANCHORS, 1152);
}

#[test]
fn grid_matches_both_sub_grid_formulas() {
    let grid = build_anchor_grid();
    for (k, a) in grid.iter().enumerate() {
        assert_eq!(*a, expected(k), "anchor {}", k);
    }
}

#[test]
fn grid_corner_entries() {
    let grid = build_anchor_grid();
    assert_eq!(grid[0], Anchor { dx: -92000, dy: -92000 });
    assert_eq!(grid[1], Anchor { dx: -92000, dy: -92000 });
    assert_eq!(grid[2], Anchor { dx: -84000, dy: -92000 });
    assert_eq!(grid[48], Anchor { dx: -92000, dy: -84000 });
    assert_eq!(grid[1151], Anchor { dx: 92000, dy: 92000 });
    assert_eq!(grid[1152], Anchor { dx: -88000, dy: -88000 });
    assert_eq!(grid[1157], Anchor { dx: -88000, dy: -88000 });
    assert_eq!(grid[1158], Anchor { dx: -72000, dy: -88000 });
    assert_eq!(grid[2015], Anchor { dx: 88000, dy: 88000 });
}

#[test]
fn grid_anchor_500() {
    let grid = build_anchor_grid();
    assert_eq!(grid[500], Anchor { dx: -12000, dy: -12000 });
}
