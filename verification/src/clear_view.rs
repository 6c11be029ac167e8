//! What is seen where nothing blocks the view: the whole circle.

use vstd::prelude::*;
use crate::bitgrid::BitGrid;
use crate::geometry::{spec_dist2, spec_in_bounds, spec_within_range};
use crate::vision::{
    lemma_visible_in_range, spec_blocks, spec_edge, spec_level, spec_level_children, spec_local,
    spec_octant_sees, spec_octant_sees_tile, spec_overlaps, spec_row_children, spec_scan,
    spec_tile, spec_visible, Interval, Slope, Sweep,
};

verus! {

/// Whether no tile of the grid blocks the view.
pub open spec fn spec_clear(grid: &BitGrid) -> bool {
    forall|x: int, y: int| !grid.spec_get(x, y)
}

/// Whether the tile at `col` of the row at `depth` lies on the grid.
pub open spec fn spec_inside(grid: &BitGrid, sw: Sweep, col: int, depth: int) -> bool {
    spec_in_bounds(
        spec_tile(sw, col, depth).0,
        spec_tile(sw, col, depth).1,
        grid.width as int,
        grid.height as int,
    )
}

/// Whether the tile at `col` of the row at `depth` touches `iv` and lets
/// the light through.
pub open spec fn spec_open_at(grid: &BitGrid, sw: Sweep, iv: Interval, col: int,
    depth: int) -> bool {
    spec_overlaps(col, depth, iv) && !spec_blocks(grid, sw, col, depth)
}

/// Whether the slope `e` is steep enough to take in column `col` of every
/// row from `depth` on: it is one, or it is at least
/// `(2 col + 1) / (2 (depth - 1))`.
pub open spec fn spec_wide(e: Slope, col: int, depth: int) -> bool {
    &&& 0 <= e.num
    &&& 0 < e.den
    &&& e.num == e.den || (2 * col + 1) * e.den <= (2 * (depth - 1)) * e.num
}

/// Seen from an origin on the grid, the tiles of an octant that lie on the
/// grid form a staircase: with a tile, those nearer to the origin in both
/// directions lie on the grid as well.
proof fn lemma_staircase(grid: &BitGrid, sw: Sweep, col: int, depth: int, c: int, d: int)
    requires
        spec_in_bounds(sw.x as int, sw.y as int, grid.width as int, grid.height as int),
        spec_inside(grid, sw, col, depth),
        0 <= c <= col,
        0 <= d <= depth,
    ensures
        spec_inside(grid, sw, c, d),
{
}

/// A slope that is wide enough touches the columns up to `col` in the rows
/// from `depth` on.
proof fn lemma_wide_overlaps(iv: Interval, col: int, depth: int, c: int)
    requires
        iv.start.num == 0,
        0 < iv.start.den,
        spec_wide(iv.end, col, depth),
        1 <= depth,
        0 <= c <= col,
        c <= depth,
    ensures
        spec_overlaps(c, depth, iv),
{
    let e = iv.end;
    assert((2 * c + 1) * iv.start.den >= (2 * depth) * iv.start.num) by (nonlinear_arith)
        requires
            iv.start.num == 0,
            0 < iv.start.den,
            0 <= c,
    ;
    if e.num == e.den {
        assert((2 * c - 1) * e.den <= (2 * depth) * e.num) by (nonlinear_arith)
            requires
                e.num == e.den,
                0 < e.den,
                c <= depth,
        ;
    } else {
        assert((2 * c - 1) * e.den <= (2 * depth) * e.num) by (nonlinear_arith)
            requires
                (2 * col + 1) * e.den <= (2 * (depth - 1)) * e.num,
                0 <= e.num,
                0 < e.den,
                c <= col,
        ;
    }
}

/// The scan of a row that begins with a run of tiles that let the light
/// through hands on an interval that begins where the scanned interval
/// began and ends no earlier than that run: at the end of the scanned
/// interval, or at the edge of a tile behind the run.
proof fn lemma_scan_open(
    grid: &BitGrid,
    sw: Sweep,
    depth: int,
    iv: Interval,
    run: int,
    col: int,
    start: Slope,
    prev: Option<bool>,
)
    requires
        0 <= col <= depth + 1,
        0 <= run <= depth,
        prev != Some(true),
        col > run ==> prev == Some(false),
        forall|c: int| col <= c <= run ==> #[trigger] spec_open_at(grid, sw, iv, c, depth),
    ensures
        spec_scan(grid, sw, depth, iv, col, start, prev).len() >= 1,
        spec_scan(grid, sw, depth, iv, col, start, prev)[0].start == start,
        spec_scan(grid, sw, depth, iv, col, start, prev)[0].end == iv.end || exists|k: int|
            run < k <= depth && spec_scan(grid, sw, depth, iv, col, start, prev)[0].end
                == #[trigger] spec_edge(k, depth),
    decreases depth - col + 1,
{
    if col > depth {
    } else if !spec_overlaps(col, depth, iv) {
        assert(col > run) by {
            if col <= run {
                assert(spec_open_at(grid, sw, iv, col, depth));
            }
        }
        lemma_scan_open(grid, sw, depth, iv, run, col + 1, start, prev);
    } else if spec_blocks(grid, sw, col, depth) {
        assert(col > run) by {
            if col <= run {
                assert(spec_open_at(grid, sw, iv, col, depth));
            }
        }
    } else {
        lemma_scan_open(grid, sw, depth, iv, run, col + 1, start, Some(false));
    }
}

/// What the first interval of a row hands on comes first in what the row
/// hands on.
proof fn lemma_children_first(grid: &BitGrid, sw: Sweep, depth: int, ivs: Seq<Interval>)
    requires
        ivs.len() >= 1,
        spec_row_children(grid, sw, depth, ivs[0]).len() >= 1,
    ensures
        spec_level_children(grid, sw, depth, ivs).len() >= 1,
        spec_level_children(grid, sw, depth, ivs)[0] == spec_row_children(
            grid,
            sw,
            depth,
            ivs[0],
        )[0],
    decreases ivs.len(),
{
    if ivs.len() == 1 {
        assert(spec_level_children(grid, sw, depth, ivs.drop_last()) =~= Seq::<Interval>::empty());
    } else {
        lemma_children_first(grid, sw, depth, ivs.drop_last());
    }
}

/// Where nothing blocks the view, the first interval of every row up to a
/// tile on the grid begins at slope zero and is wide enough for the column
/// of that tile.
proof fn lemma_level_first(grid: &BitGrid, sw: Sweep, col: int, depth: int, d: int)
    requires
        spec_clear(grid),
        spec_in_bounds(sw.x as int, sw.y as int, grid.width as int, grid.height as int),
        spec_inside(grid, sw, col, depth),
        0 <= col <= depth <= 0x1_0000_0000,
        1 <= d <= depth,
    ensures
        spec_level(grid, sw, d).len() >= 1,
        spec_level(grid, sw, d)[0].start.num == 0,
        0 < spec_level(grid, sw, d)[0].start.den,
        spec_wide(spec_level(grid, sw, d)[0].end, col, d),
    decreases d,
{
    if d > 1 {
        lemma_level_first(grid, sw, col, depth, d - 1);
        let above = spec_level(grid, sw, d - 1);
        let iv = above[0];
        let run = if col <= d - 1 {
            col
        } else {
            d - 1
        };
        assert forall|c: int| 0 <= c <= run implies #[trigger] spec_open_at(
            grid,
            sw,
            iv,
            c,
            d - 1,
        ) by {
            lemma_wide_overlaps(iv, col, d - 1, c);
            lemma_staircase(grid, sw, col, depth, c, d - 1);
        }
        lemma_scan_open(grid, sw, d - 1, iv, run, 0, iv.start, None);
        lemma_children_first(grid, sw, d - 1, above);
        let first = spec_level(grid, sw, d)[0];
        let e = iv.end;
        if first.end == e {
            if e.num != e.den {
                assert((2 * col + 1) * e.den <= (2 * (d - 1)) * e.num) by (nonlinear_arith)
                    requires
                        (2 * col + 1) * e.den <= (2 * (d - 2)) * e.num,
                        0 <= e.num,
                ;
            }
        } else {
            let k = choose|k: int|
                run < k <= d - 1 && first.end == #[trigger] spec_edge(k, d - 1);
            assert((2 * col + 1) * (2 * (d - 1)) <= (2 * (d - 1)) * (2 * k - 1))
                by (nonlinear_arith)
                requires
                    col + 1 <= k,
                    1 <= d - 1,
            ;
        }
    }
}

/// Where nothing blocks the view, every tile of the grid within the radius
/// of an origin on the grid is visible.
pub proof fn lemma_clear_view(grid: &BitGrid, origin: (int, int), radius: int, t: (int, int))
    requires
        spec_clear(grid),
        grid.width <= i32::MAX,
        grid.height <= i32::MAX,
        spec_in_bounds(origin.0, origin.1, grid.width as int, grid.height as int),
        0 <= radius <= i32::MAX,
        spec_in_bounds(t.0, t.1, grid.width as int, grid.height as int),
        spec_within_range(spec_dist2(origin, t), radius),
    ensures
        spec_visible(grid, origin, radius).contains(t),
{
    if t != origin {
        let dx = t.0 - origin.0;
        let dy = t.1 - origin.1;
        let ax = if dx < 0 {
            -dx
        } else {
            dx
        };
        let ay = if dy < 0 {
            -dy
        } else {
            dy
        };
        let o: int = if dy < 0 && ax <= ay {
            if dx >= 0 {
                0
            } else {
                7
            }
        } else if dx > 0 && ay <= ax {
            if dy <= 0 {
                1
            } else {
                2
            }
        } else if dy > 0 && ax <= ay {
            if dx >= 0 {
                3
            } else {
                4
            }
        } else {
            if dy >= 0 {
                5
            } else {
                6
            }
        };
        let sw = Sweep {
            x: origin.0 as i32,
            y: origin.1 as i32,
            radius: radius as i32,
            octant: o as u8,
        };
        let l = spec_local(sw, t);
        assert((-dx) * (-dx) == dx * dx) by (nonlinear_arith);
        assert((-dy) * (-dy) == dy * dy) by (nonlinear_arith);
        assert(l.1 <= radius) by (nonlinear_arith)
            requires
                l.0 * l.0 + l.1 * l.1 <= radius * (radius + 1),
                0 <= radius,
                1 <= l.1,
        ;
        lemma_level_first(grid, sw, l.0, l.1, l.1);
        let iv = spec_level(grid, sw, l.1)[0];
        lemma_wide_overlaps(iv, l.0, l.1, l.0);
        assert(spec_octant_sees_tile(grid, origin, radius, o, t));
    }
}

/// Where nothing blocks the view, what is visible from an origin on the
/// grid is the circle around it: exactly the tiles of the grid whose
/// squared distance from the origin is at most `radius * (radius + 1)`.
pub proof fn lemma_clear_view_is_circle(grid: &BitGrid, origin: (int, int), radius: int)
    requires
        spec_clear(grid),
        grid.width <= i32::MAX,
        grid.height <= i32::MAX,
        spec_in_bounds(origin.0, origin.1, grid.width as int, grid.height as int),
        0 <= radius <= i32::MAX,
    ensures
        spec_visible(grid, origin, radius) == Set::new(
            |t: (int, int)|
                spec_in_bounds(t.0, t.1, grid.width as int, grid.height as int)
                    && spec_within_range(spec_dist2(origin, t), radius),
        ),
{
    let circle = Set::new(
        |t: (int, int)|
            spec_in_bounds(t.0, t.1, grid.width as int, grid.height as int) && spec_within_range(
                spec_dist2(origin, t),
                radius,
            ),
    );
    assert forall|t: (int, int)| spec_visible(grid, origin, radius).contains(t) == circle.contains(
        t,
    ) by {
        if spec_visible(grid, origin, radius).contains(t) {
            lemma_visible_in_range(grid, origin, radius, t);
        }
        if circle.contains(t) {
            lemma_clear_view(grid, origin, radius, t);
        }
    }
}

} // verus!
