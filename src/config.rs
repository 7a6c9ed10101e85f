use vstd::prelude::*;

verus! {

/// Fixed-point scale shared by coordinates, scores and IoU thresholds:
/// one pixel, or a ratio of 1.0, is `ONE` units.
pub const ONE: i64 = 1000;

/// Side of the square model input, in pixels.
pub const MODEL_SIZE: i64 = 192;

/// Half the model input side, in fixed-point units: the shift from
/// center-relative to top-left-relative model coordinates.
pub const HALF_MODEL: i64 = 96000;

/// Number of anchors, and of output rows of the detector.
pub const NUM_ANCHORS: usize = 2016;

/// Anchors of the fine sub-grid, which come first.
pub const FINE_ANCHORS: usize = 1152;

/// Values per regression row: four box values, then the landmarks.
pub const ROW_WIDTH: usize = 18;

/// Landmarks per detection.
pub const NUM_TIPS: usize = 7;

/// Largest magnitude of a box field for which overlap is measured.
pub const COORD_LIMIT: i64 = 1099511627776;

} // verus!
