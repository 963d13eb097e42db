use vstd::prelude::*;

verus! {

/// Largest magnitude of a coordinate or extent that the simulation steps
/// accept; it leaves room for one frame of motion inside an `i64`.
pub const MAX_COORD: i64 = 1_099_511_627_776;

/// Largest magnitude of a velocity component, in tenths of a pixel per millisecond.
pub const MAX_SPEED: i64 = 1_000_000;

/// Longest frame, in milliseconds, that one simulation step accepts.
pub const MAX_DT: u64 = 1_000_000;

/// Whether `v` lies within the accepted coordinate range.
pub open spec fn in_range(v: int) -> bool {
    -MAX_COORD <= v <= MAX_COORD
}

/// A point, or a vector, in the screen's plane (origin at the top left, y grows downward).
#[derive(Clone, Copy, Debug, PartialEq, Eq, Structural)]
pub struct Point {
    pub x: i64,
    pub y: i64,
}

/// The width and height of a sprite.
#[derive(Clone, Copy, Debug, PartialEq, Eq, Structural)]
pub struct Dimensions {
    pub w: i64,
    pub h: i64,
}

impl Dimensions {
    /// Extents are non-negative and within the accepted range.
    pub open spec fn wf(&self) -> bool {
        0 <= self.w <= MAX_COORD && 0 <= self.h <= MAX_COORD
    }
}

/// The logical size of the screen.
#[derive(Clone, Copy, Debug, PartialEq, Eq, Structural)]
pub struct ScreenBounds {
    pub width: i64,
    pub height: i64,
}

/// An axis-aligned rectangle: origin `(x, y)` and extent `(w, h)`.
#[derive(Clone, Copy, Debug, PartialEq, Eq, Structural)]
pub struct Rect {
    pub x: i64,
    pub y: i64,
    pub w: i64,
    pub h: i64,
}

/// The box of a sprite of size `size` placed at `at`.
pub open spec fn spec_box(at: Point, size: Dimensions) -> Rect {
    Rect { x: at.x, y: at.y, w: size.w, h: size.h }
}

/// Two segments `[min1, max1]` and `[min2, max2]` share interior points;
/// segments that only touch at an end do not.
pub open spec fn spans_overlap(max1: int, min1: int, max2: int, min2: int) -> bool {
    (max1 > min2 && min1 < max2) || (max2 > min1 && min2 < max1)
}

/// Two rectangles overlap iff their projections on both axes overlap.
pub open spec fn rects_overlap(a: Rect, b: Rect) -> bool {
    spans_overlap(a.x + a.w, a.x as int, b.x + b.w, b.x as int)
        && spans_overlap(a.y + a.h, a.y as int, b.y + b.h, b.y as int)
}

/// Whether two rectangles overlap (touching edges do not count).
pub fn overlaps(box1: &Rect, box2: &Rect) -> (r: bool)
    ensures
        r == rects_overlap(*box1, *box2),
{
    let x_min_1 = box1.x as i128;
    let x_max_1 = box1.x as i128 + box1.w as i128;
    let x_min_2 = box2.x as i128;
    let x_max_2 = box2.x as i128 + box2.w as i128;

    let y_min_1 = box1.y as i128;
    let y_max_1 = box1.y as i128 + box1.h as i128;
    let y_min_2 = box2.y as i128;
    let y_max_2 = box2.y as i128 + box2.h as i128;

    overlaps_1d(x_max_1, x_min_1, x_max_2, x_min_2) && overlaps_1d(
        y_max_1,
        y_min_1,
        y_max_2,
        y_min_2,
    )
}

/// Whether two segments, given by their ends, share interior points.
fn overlaps_1d(x_max_1: i128, x_min_1: i128, x_max_2: i128, x_min_2: i128) -> (r: bool)
    ensures
        r == spans_overlap(x_max_1 as int, x_min_1 as int, x_max_2 as int, x_min_2 as int),
{
    (x_max_1 > x_min_2 && x_min_1 < x_max_2) || (x_max_2 > x_min_1 && x_min_2 < x_max_1)
}

/// Overlap is symmetric.
pub proof fn lemma_overlaps_symmetric(a: Rect, b: Rect)
    ensures
        rects_overlap(a, b) == rects_overlap(b, a),
{
}

/// Rectangles that meet only along an edge, with no common area, do not overlap.
pub proof fn lemma_edge_contact_is_no_overlap(a: Rect, b: Rect)
    requires
        a.x + a.w == b.x || b.x + b.w == a.x || a.y + a.h == b.y || b.y + b.h == a.y,
    ensures
        !rects_overlap(a, b),
{
}

} // verus!
