//! Integer geometry on the tile grid: squared distances and the range rule.

use vstd::prelude::*;

verus! {

/// Squared Euclidean distance between two tiles.
pub open spec fn spec_dist2(a: (int, int), b: (int, int)) -> int {
    (b.0 - a.0) * (b.0 - a.0) + (b.1 - a.1) * (b.1 - a.1)
}

/// The largest squared distance that counts as within `range`.
///
/// Comparing against `range * (range + 1)` stands for comparing the distance
/// against `range + 1/2`, which rounds the edge of the circle.
pub open spec fn spec_max_dist2(range: int) -> int {
    range * (range + 1)
}

/// Whether a squared distance lies within `range`.
pub open spec fn spec_within_range(d2: int, range: int) -> bool {
    0 <= range && d2 <= spec_max_dist2(range)
}

/// The squared distance does not depend on the direction in which it is
/// measured, so the range rule admits a tile from an origin exactly when it
/// admits the origin from that tile.
pub proof fn lemma_dist2_symmetric(a: (int, int), b: (int, int))
    ensures
        spec_dist2(a, b) == spec_dist2(b, a),
{
    assert((b.0 - a.0) * (b.0 - a.0) == (a.0 - b.0) * (a.0 - b.0)) by (nonlinear_arith);
    assert((b.1 - a.1) * (b.1 - a.1) == (a.1 - b.1) * (a.1 - b.1)) by (nonlinear_arith);
}

/// The range rule is symmetric in its two tiles, holds at a squared distance
/// of exactly `range * (range + 1)` and fails one above it.
pub proof fn lemma_range_rule(a: (int, int), b: (int, int), range: int)
    requires
        0 <= range,
    ensures
        spec_within_range(spec_dist2(a, b), range) == spec_within_range(spec_dist2(b, a), range),
        spec_within_range(range * (range + 1), range),
        !spec_within_range(range * (range + 1) + 1, range),
{
    lemma_dist2_symmetric(a, b);
}

/// Squared Euclidean distance between two tiles.
pub fn dist2(a: (i32, i32), b: (i32, i32)) -> (d: i32)
    requires
        spec_dist2((a.0 as int, a.1 as int), (b.0 as int, b.1 as int)) <= i32::MAX,
    ensures
        d == spec_dist2((a.0 as int, a.1 as int), (b.0 as int, b.1 as int)),
{
    let dx: i64 = b.0 as i64 - a.0 as i64;
    let dy: i64 = b.1 as i64 - a.1 as i64;
    proof {
        assert(dx * dx >= 0 && dy * dy >= 0) by (nonlinear_arith);
        assert(dx * dx <= 0x1_0000_0000 * 0x1_0000_0000 && dy * dy <= 0x1_0000_0000
            * 0x1_0000_0000) by (nonlinear_arith)
            requires
                -0x1_0000_0000 <= dx <= 0x1_0000_0000,
                -0x1_0000_0000 <= dy <= 0x1_0000_0000,
        ;
    }
    let d: i128 = (dx as i128) * (dx as i128) + (dy as i128) * (dy as i128);
    d as i32
}

/// Squared distance between two tiles, wide enough for any pair of `i32`
/// coordinates.
pub fn dist2_wide(a: (i32, i32), b: (i32, i32)) -> (d: i128)
    ensures
        d == spec_dist2((a.0 as int, a.1 as int), (b.0 as int, b.1 as int)),
        d >= 0,
{
    let dx: i128 = b.0 as i128 - a.0 as i128;
    let dy: i128 = b.1 as i128 - a.1 as i128;
    proof {
        assert(dx * dx >= 0 && dy * dy >= 0) by (nonlinear_arith);
        assert(dx * dx <= 0x1_0000_0000 * 0x1_0000_0000 && dy * dy <= 0x1_0000_0000
            * 0x1_0000_0000) by (nonlinear_arith)
            requires
                -0x1_0000_0000 <= dx <= 0x1_0000_0000,
                -0x1_0000_0000 <= dy <= 0x1_0000_0000,
        ;
    }
    dx * dx + dy * dy
}

/// Whether `b` lies within `range` of `a` under the squared-distance rule:
/// `dist2(a, b) <= range * (range + 1)`.
pub fn within_range(a: (i32, i32), b: (i32, i32), range: i32) -> (r: bool)
    ensures
        r == spec_within_range(
            spec_dist2((a.0 as int, a.1 as int), (b.0 as int, b.1 as int)),
            range as int,
        ),
{
    if range < 0 {
        return false;
    }
    let d: i128 = dist2_wide(a, b);
    assert(0 <= range * (range + 1) <= 0x8000_0000 * 0x8000_0000) by (nonlinear_arith)
        requires
            0 <= range <= 0x7fff_ffff,
    ;
    let limit: i128 = (range as i128) * (range as i128 + 1);
    d <= limit
}

/// Whether tile `a` comes before tile `b` when the tiles are read row by
/// row, each row from the left.
pub open spec fn spec_precedes(a: (int, int), b: (int, int)) -> bool {
    a.1 < b.1 || (a.1 == b.1 && a.0 < b.0)
}

/// Whether `(x, y)` lies on a grid of `w` by `h` tiles.
pub open spec fn spec_in_bounds(x: int, y: int, w: int, h: int) -> bool {
    0 <= x < w && 0 <= y < h
}

/// Row-major position of `(x, y)` on a grid `w` tiles wide.
pub open spec fn spec_index(x: int, y: int, w: int) -> int {
    y * w + x
}

/// A tile on the grid has its position below the number of tiles.
pub proof fn lemma_index_bounds(x: int, y: int, w: int, h: int)
    requires
        spec_in_bounds(x, y, w, h),
    ensures
        0 <= spec_index(x, y, w) < w * h,
        0 <= y * w,
{
    assert(0 <= y * w && y * w + w <= h * w && h * w == w * h) by (nonlinear_arith)
        requires
            0 <= y < h,
            0 <= w,
    ;
}

/// Two tiles on the grid with the same position are the same tile.
pub proof fn lemma_index_injective(x1: int, y1: int, x2: int, y2: int, w: int, h: int)
    requires
        spec_in_bounds(x1, y1, w, h),
        spec_in_bounds(x2, y2, w, h),
        spec_index(x1, y1, w) == spec_index(x2, y2, w),
    ensures
        x1 == x2,
        y1 == y2,
{
    if y1 < y2 {
        assert(y1 * w + w <= y2 * w) by (nonlinear_arith)
            requires
                y1 < y2,
                0 <= w,
        ;
    } else if y2 < y1 {
        assert(y2 * w + w <= y1 * w) by (nonlinear_arith)
            requires
                y2 < y1,
                0 <= w,
        ;
    }
}

/// Whether `(x, y)` lies on a grid of `w` by `h` tiles.
pub fn in_bounds(x: i32, y: i32, w: i32, h: i32) -> (r: bool)
    ensures
        r == spec_in_bounds(x as int, y as int, w as int, h as int),
{
    0 <= x && x < w && 0 <= y && y < h
}

/// Row-major position of a tile on the grid.
pub fn grid_index(x: i32, y: i32, w: i32, h: i32) -> (i: usize)
    requires
        spec_in_bounds(x as int, y as int, w as int, h as int),
        w * h <= usize::MAX,
    ensures
        i == spec_index(x as int, y as int, w as int),
        i < w * h,
{
    proof {
        lemma_index_bounds(x as int, y as int, w as int, h as int);
    }
    let row: usize = (y as usize) * (w as usize);
    row + x as usize
}

} // verus!
