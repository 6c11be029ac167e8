//! The visibility engine: field of view by shadowcasting.
//!
//! The surroundings of the origin are swept in eight octants. In each, the
//! rows at depth 1, 2, ... up to the radius are scanned in turn. What can be
//! seen of a row is a list of slope intervals; a blocking tile in the row
//! casts a shadow that narrows or splits the intervals of the next row.
//! A tile is visible if it touches an interval of its row and lies within
//! the radius.

use vstd::prelude::*;
use crate::bitgrid::BitGrid;
use crate::components::FieldOfView;
use crate::geometry::{spec_in_bounds, spec_within_range};

verus! {

/// The bound on the numerator and the denominator of a slope.
pub open spec fn spec_slope_limit() -> int {
    0x1_0000_0000
}

/// A slope between zero and one, as a fraction.
#[derive(Clone, Copy, PartialEq, Eq, Structural, Debug)]
pub struct Slope {
    pub num: i64,
    pub den: i64,
}

impl Slope {
    /// The fraction is between zero and one and its parts are small.
    pub open spec fn wf(&self) -> bool {
        0 <= self.num <= self.den && 0 < self.den <= spec_slope_limit()
    }
}

/// The slopes from `start` to `end`, both among them.
#[derive(Clone, Copy, PartialEq, Eq, Structural, Debug)]
pub struct Interval {
    pub start: Slope,
    pub end: Slope,
}

impl Interval {
    /// Both ends are sound slopes.
    pub open spec fn wf(&self) -> bool {
        self.start.wf() && self.end.wf()
    }

    /// All slopes of an octant, from zero to one.
    pub open spec fn spec_full() -> Interval {
        Interval { start: Slope { num: 0, den: 1 }, end: Slope { num: 1, den: 1 } }
    }
}

/// Whether every interval of `s` is sound.
pub open spec fn spec_all_wf(s: Seq<Interval>) -> bool {
    forall|i: int| 0 <= i < s.len() ==> (#[trigger] s[i]).wf()
}

/// One octant of the sweep around an origin.
#[derive(Clone, Copy, PartialEq, Eq, Structural, Debug)]
pub struct Sweep {
    pub x: i32,
    pub y: i32,
    pub radius: i32,
    pub octant: u8,
}

/// The tile at column `col` of the row at `depth` in the octant of `sw`.
pub open spec fn spec_tile(sw: Sweep, col: int, depth: int) -> (int, int) {
    if sw.octant == 0 {
        (sw.x + col, sw.y - depth)
    } else if sw.octant == 1 {
        (sw.x + depth, sw.y - col)
    } else if sw.octant == 2 {
        (sw.x + depth, sw.y + col)
    } else if sw.octant == 3 {
        (sw.x + col, sw.y + depth)
    } else if sw.octant == 4 {
        (sw.x - col, sw.y + depth)
    } else if sw.octant == 5 {
        (sw.x - depth, sw.y + col)
    } else if sw.octant == 6 {
        (sw.x - depth, sw.y - col)
    } else {
        (sw.x - col, sw.y - depth)
    }
}

/// The column and the depth at which tile `t` lies in the octant of `sw`,
/// if the octant is stretched over the whole plane.
pub open spec fn spec_local(sw: Sweep, t: (int, int)) -> (int, int) {
    let dx = t.0 - sw.x;
    let dy = t.1 - sw.y;
    if sw.octant == 0 {
        (dx, -dy)
    } else if sw.octant == 1 {
        (-dy, dx)
    } else if sw.octant == 2 {
        (dy, dx)
    } else if sw.octant == 3 {
        (dx, dy)
    } else if sw.octant == 4 {
        (-dx, dy)
    } else if sw.octant == 5 {
        (dy, -dx)
    } else if sw.octant == 6 {
        (-dy, -dx)
    } else {
        (-dx, -dy)
    }
}

/// Whether the tile at `col` of the row at `depth` stops the light: it is
/// set in the blocking grid, or it lies off the grid.
pub open spec fn spec_blocks(grid: &BitGrid, sw: Sweep, col: int, depth: int) -> bool {
    let t = spec_tile(sw, col, depth);
    !spec_in_bounds(t.0, t.1, grid.width as int, grid.height as int) || grid.spec_get(t.0, t.1)
}

/// Whether the tile at `col` of the row at `depth` can be lit at all: it
/// lies on the grid and within the radius.
pub open spec fn spec_reachable(grid: &BitGrid, sw: Sweep, col: int, depth: int) -> bool {
    let t = spec_tile(sw, col, depth);
    &&& spec_in_bounds(t.0, t.1, grid.width as int, grid.height as int)
    &&& spec_within_range(col * col + depth * depth, sw.radius as int)
}

/// Whether the tile at `col` of the row at `depth` touches the interval:
/// the tile spans the slopes from `(2 col - 1) / (2 depth)` to
/// `(2 col + 1) / (2 depth)`.
pub open spec fn spec_overlaps(col: int, depth: int, iv: Interval) -> bool {
    &&& (2 * col + 1) * iv.start.den >= (2 * depth) * iv.start.num
    &&& (2 * col - 1) * iv.end.den <= (2 * depth) * iv.end.num
}

/// The slope at which the tile at `col` of the row at `depth` begins.
pub open spec fn spec_edge(col: int, depth: int) -> Slope {
    Slope { num: (2 * col - 1) as i64, den: (2 * depth) as i64 }
}

/// The intervals that the scan of a row hands to the next row, from column
/// `col` on. `start` is where the interval that is open at `col` began, and
/// `prev` says whether the last tile that touched the interval blocked.
///
/// A run of tiles that let the light through, between two blocking tiles or
/// the ends of the interval, becomes one interval of the next row.
pub open spec fn spec_scan(
    grid: &BitGrid,
    sw: Sweep,
    depth: int,
    iv: Interval,
    col: int,
    start: Slope,
    prev: Option<bool>,
) -> Seq<Interval>
    decreases depth - col + 1,
{
    if col > depth {
        if prev == Some(false) {
            seq![Interval { start, end: iv.end }]
        } else {
            Seq::empty()
        }
    } else if !spec_overlaps(col, depth, iv) {
        spec_scan(grid, sw, depth, iv, col + 1, start, prev)
    } else {
        let blocking = spec_blocks(grid, sw, col, depth);
        let edge = spec_edge(col, depth);
        let next_start = if prev == Some(true) && !blocking {
            edge
        } else {
            start
        };
        let closed = if prev == Some(false) && blocking {
            seq![Interval { start, end: edge }]
        } else {
            Seq::empty()
        };
        closed + spec_scan(grid, sw, depth, iv, col + 1, next_start, Some(blocking))
    }
}

/// The intervals of the next row that one interval of the row at `depth`
/// leaves open.
pub open spec fn spec_row_children(grid: &BitGrid, sw: Sweep, depth: int, iv: Interval) -> Seq<
    Interval,
> {
    spec_scan(grid, sw, depth, iv, 0, iv.start, None)
}

/// The intervals of the next row that the intervals `ivs` of the row at
/// `depth` leave open.
pub open spec fn spec_level_children(grid: &BitGrid, sw: Sweep, depth: int, ivs: Seq<Interval>)
    -> Seq<Interval>
    decreases ivs.len(),
{
    if ivs.len() == 0 {
        Seq::empty()
    } else {
        spec_level_children(grid, sw, depth, ivs.drop_last()) + spec_row_children(
            grid,
            sw,
            depth,
            ivs.last(),
        )
    }
}

/// The intervals through which the row at `depth` can be seen: all slopes
/// for the first row, and for every further row what the row before it
/// leaves open.
pub open spec fn spec_level(grid: &BitGrid, sw: Sweep, depth: int) -> Seq<Interval>
    decreases depth,
{
    if depth <= 1 {
        seq![Interval::spec_full()]
    } else {
        spec_level_children(grid, sw, depth - 1, spec_level(grid, sw, depth - 1))
    }
}

/// Whether the tile at `col` of the row at `depth` touches one of `ivs`.
pub open spec fn spec_row_hit(ivs: Seq<Interval>, col: int, depth: int) -> bool {
    exists|i: int| 0 <= i < ivs.len() && spec_overlaps(col, depth, #[trigger] ivs[i])
}

/// Whether the sweep of one octant sees the tile at `col` of the row at
/// `depth`.
pub open spec fn spec_octant_sees(grid: &BitGrid, sw: Sweep, col: int, depth: int) -> bool {
    &&& 1 <= depth <= sw.radius
    &&& 0 <= col <= depth
    &&& spec_reachable(grid, sw, col, depth)
    &&& spec_row_hit(spec_level(grid, sw, depth), col, depth)
}

/// Whether the sweep of octant `octant` around `origin` sees tile `t`.
pub open spec fn spec_octant_sees_tile(
    grid: &BitGrid,
    origin: (int, int),
    radius: int,
    octant: int,
    t: (int, int),
) -> bool {
    let sw = Sweep {
        x: origin.0 as i32,
        y: origin.1 as i32,
        radius: radius as i32,
        octant: octant as u8,
    };
    spec_octant_sees(grid, sw, spec_local(sw, t).0, spec_local(sw, t).1)
}

/// Whether tile `t` is seen from `origin` by the first `octants` octants of
/// the sweep. The origin itself is seen if it lies on the grid.
pub open spec fn spec_sees_upto(
    grid: &BitGrid,
    origin: (int, int),
    radius: int,
    octants: int,
    t: (int, int),
) -> bool {
    &&& 0 <= radius
    &&& spec_in_bounds(t.0, t.1, grid.width as int, grid.height as int)
    &&& (t == origin || exists|o: int|
        0 <= o < octants && #[trigger] spec_octant_sees_tile(grid, origin, radius, o, t))
}

/// The tiles that are visible from `origin` within `radius`, given the grid
/// of the tiles that block the view.
pub open spec fn spec_visible(grid: &BitGrid, origin: (int, int), radius: int) -> Set<(int, int)> {
    Set::new(|t: (int, int)| spec_sees_upto(grid, origin, radius, 8, t))
}

/// The tiles of the row at `depth`, up to column `upto`, that touch `iv`
/// and can be lit.
pub open spec fn spec_row_set(grid: &BitGrid, sw: Sweep, depth: int, iv: Interval, upto: int)
    -> Set<(int, int)> {
    Set::new(
        |t: (int, int)|
            {
                let l = spec_local(sw, t);
                &&& l.1 == depth
                &&& 0 <= l.0 < upto
                &&& spec_overlaps(l.0, depth, iv)
                &&& spec_reachable(grid, sw, l.0, depth)
            },
    )
}

/// The tiles of the row at `depth` that touch one of `ivs` and can be lit.
pub open spec fn spec_level_set(grid: &BitGrid, sw: Sweep, depth: int, ivs: Seq<Interval>) -> Set<
    (int, int),
> {
    Set::new(
        |t: (int, int)|
            {
                let l = spec_local(sw, t);
                &&& l.1 == depth
                &&& 0 <= l.0 <= depth
                &&& spec_reachable(grid, sw, l.0, depth)
                &&& spec_row_hit(ivs, l.0, depth)
            },
    )
}

/// The tiles that the sweep of one octant sees in the rows above `below`.
pub open spec fn spec_octant_set(grid: &BitGrid, sw: Sweep, below: int) -> Set<(int, int)> {
    Set::new(
        |t: (int, int)|
            {
                let l = spec_local(sw, t);
                l.1 < below && spec_octant_sees(grid, sw, l.0, l.1)
            },
    )
}

proof fn lemma_product_fits(a: int, b: int)
    requires
        -0x2_0000_0000 <= a <= 0x2_0000_0000,
        -0x2_0000_0000 <= b <= 0x2_0000_0000,
    ensures
        -0x4_0000_0000_0000_0000 <= a * b <= 0x4_0000_0000_0000_0000,
{
    assert(-0x4_0000_0000_0000_0000 <= a * b <= 0x4_0000_0000_0000_0000) by (nonlinear_arith)
        requires
            -0x2_0000_0000 <= a <= 0x2_0000_0000,
            -0x2_0000_0000 <= b <= 0x2_0000_0000,
    ;
}

fn overlaps(col: i64, depth: i64, iv: &Interval) -> (r: bool)
    requires
        0 <= col <= depth <= i32::MAX,
        iv.wf(),
    ensures
        r == spec_overlaps(col as int, depth as int, *iv),
{
    proof {
        lemma_product_fits(2 * col + 1, iv.start.den as int);
        lemma_product_fits(2 * depth, iv.start.num as int);
        lemma_product_fits(2 * col - 1, iv.end.den as int);
        lemma_product_fits(2 * depth, iv.end.num as int);
    }
    let a: i128 = (2 * col as i128 + 1) * (iv.start.den as i128);
    let b: i128 = (2 * depth as i128) * (iv.start.num as i128);
    let c: i128 = (2 * col as i128 - 1) * (iv.end.den as i128);
    let d: i128 = (2 * depth as i128) * (iv.end.num as i128);
    a >= b && c <= d
}

fn tile_of(sw: &Sweep, col: i64, depth: i64) -> (t: (i64, i64))
    requires
        0 <= col <= depth <= i32::MAX,
    ensures
        (t.0 as int, t.1 as int) == spec_tile(*sw, col as int, depth as int),
{
    let x: i64 = sw.x as i64;
    let y: i64 = sw.y as i64;
    if sw.octant == 0 {
        (x + col, y - depth)
    } else if sw.octant == 1 {
        (x + depth, y - col)
    } else if sw.octant == 2 {
        (x + depth, y + col)
    } else if sw.octant == 3 {
        (x + col, y + depth)
    } else if sw.octant == 4 {
        (x - col, y + depth)
    } else if sw.octant == 5 {
        (x - depth, y + col)
    } else if sw.octant == 6 {
        (x - depth, y - col)
    } else {
        (x - col, y - depth)
    }
}

fn within_radius(col: i64, depth: i64, radius: i32) -> (r: bool)
    requires
        0 <= col <= depth <= i32::MAX,
    ensures
        r == spec_within_range(col * col + depth * depth, radius as int),
{
    if radius < 0 {
        return false;
    }
    proof {
        lemma_product_fits(col as int, col as int);
        lemma_product_fits(depth as int, depth as int);
        lemma_product_fits(radius as int, radius + 1);
    }
    let d2: i128 = (col as i128) * (col as i128) + (depth as i128) * (depth as i128);
    let limit: i128 = (radius as i128) * (radius as i128 + 1);
    d2 <= limit
}

/// The tile of a local position is where the position is read back from.
proof fn lemma_local_of_tile(sw: Sweep, col: int, depth: int)
    ensures
        spec_local(sw, spec_tile(sw, col, depth)) == (col, depth),
{
}

/// A tile is the tile of its local position.
proof fn lemma_tile_of_local(sw: Sweep, t: (int, int))
    ensures
        spec_tile(sw, spec_local(sw, t).0, spec_local(sw, t).1) == t,
{
}

/// Scans the tiles of the row at `depth` that touch `iv`: lights those that
/// can be lit, and appends to `next` the intervals that the row leaves open.
fn scan_row(
    out: &mut BitGrid,
    grid: &BitGrid,
    sw: &Sweep,
    depth: i64,
    iv: &Interval,
    next: &mut Vec<Interval>,
)
    requires
        old(out).wf(),
        grid.wf(),
        old(out).same_size(grid),
        1 <= depth <= i32::MAX,
        iv.wf(),
        spec_all_wf(old(next)@),
    ensures
        final(out).wf(),
        final(out).same_size(grid),
        final(out)@ == old(out)@.union(spec_row_set(grid, *sw, depth as int, *iv, depth + 1)),
        final(next)@ == old(next)@ + spec_row_children(grid, *sw, depth as int, *iv),
        spec_all_wf(final(next)@),
{
    let ghost out0 = out@;
    let ghost next0 = next@;
    let mut col: i64 = 0;
    let mut start: Slope = iv.start;
    let mut prev: Option<bool> = None;
    while col <= depth
        invariant
            0 <= col <= depth + 1,
            1 <= depth <= i32::MAX,
            out.wf(),
            grid.wf(),
            out.same_size(grid),
            iv.wf(),
            start.wf(),
            prev.is_some() ==> col >= 1,
            spec_all_wf(next@),
            out@ == out0.union(spec_row_set(grid, *sw, depth as int, *iv, col as int)),
            next0 + spec_row_children(grid, *sw, depth as int, *iv) == next@ + spec_scan(
                grid,
                *sw,
                depth as int,
                *iv,
                col as int,
                start,
                prev,
            ),
        decreases depth + 1 - col,
    {
        if overlaps(col, depth, iv) {
            let t = tile_of(sw, col, depth);
            let inside: bool = 0 <= t.0 && t.0 < grid.width as i64 && 0 <= t.1 && t.1
                < grid.height as i64;
            let blocking: bool = !inside || grid.get(t.0 as i32, t.1 as i32);
            let lit: bool = inside && within_radius(col, depth, sw.radius);
            if lit {
                out.set(t.0 as i32, t.1 as i32, true);
            }
            if prev == Some(true) && !blocking {
                start = Slope { num: 2 * col - 1, den: 2 * depth };
            }
            if prev == Some(false) && blocking {
                next.push(Interval { start, end: Slope { num: 2 * col - 1, den: 2 * depth } });
            }
            prev = Some(blocking);
            proof {
                lemma_local_of_tile(*sw, col as int, depth as int);
            }
        } else {
        }
        col = col + 1;
    }
    if prev == Some(false) {
        next.push(Interval { start, end: iv.end });
    }
}

/// What a row hands on does not depend on how the list of its intervals is
/// cut: the children of a list that grew by one interval are the children
/// of the list before, followed by the children of that interval.
proof fn lemma_level_children_push(grid: &BitGrid, sw: Sweep, depth: int, ivs: Seq<Interval>,
    i: int)
    requires
        0 <= i < ivs.len(),
    ensures
        spec_level_children(grid, sw, depth, ivs.take(i + 1)) == spec_level_children(
            grid,
            sw,
            depth,
            ivs.take(i),
        ) + spec_row_children(grid, sw, depth, ivs[i]),
{
    assert(ivs.take(i + 1).drop_last() =~= ivs.take(i));
}

/// Scans the row at `depth` through the intervals `current`: lights what
/// can be lit and returns the intervals of the next row.
fn scan_level(out: &mut BitGrid, grid: &BitGrid, sw: &Sweep, depth: i64, current: &Vec<Interval>)
    -> (next: Vec<Interval>)
    requires
        old(out).wf(),
        grid.wf(),
        old(out).same_size(grid),
        1 <= depth <= i32::MAX,
        spec_all_wf(current@),
    ensures
        final(out).wf(),
        final(out).same_size(grid),
        final(out)@ == old(out)@.union(spec_level_set(grid, *sw, depth as int, current@)),
        next@ == spec_level_children(grid, *sw, depth as int, current@),
        spec_all_wf(next@),
{
    let ghost out0 = out@;
    let mut next: Vec<Interval> = Vec::new();
    let mut i: usize = 0;
    while i < current.len()
        invariant
            i <= current.len(),
            out.wf(),
            grid.wf(),
            out.same_size(grid),
            1 <= depth <= i32::MAX,
            spec_all_wf(current@),
            spec_all_wf(next@),
            out@ == out0.union(spec_level_set(grid, *sw, depth as int, current@.take(i as int))),
            next@ == spec_level_children(grid, *sw, depth as int, current@.take(i as int)),
        decreases current.len() - i,
    {
        let iv = current[i];
        scan_row(out, grid, sw, depth, &iv, &mut next);
        proof {
            lemma_level_children_push(grid, *sw, depth as int, current@, i as int);
        }
        i = i + 1;
    }
    proof {
        assert(current@.take(current.len() as int) =~= current@);
    }
    next
}

/// Once a row can be seen through no interval, neither can any row behind
/// it.
proof fn lemma_empty_level(grid: &BitGrid, sw: Sweep, depth: int, behind: int)
    requires
        1 <= depth <= behind,
        spec_level(grid, sw, depth).len() == 0,
    ensures
        spec_level(grid, sw, behind).len() == 0,
    decreases behind - depth,
{
    if depth < behind {
        lemma_empty_level(grid, sw, depth, behind - 1);
    }
}

/// Sweeps one octant: lights every tile that the octant sees.
fn scan_octant(out: &mut BitGrid, grid: &BitGrid, sw: &Sweep)
    requires
        old(out).wf(),
        grid.wf(),
        old(out).same_size(grid),
        0 <= sw.radius,
    ensures
        final(out).wf(),
        final(out).same_size(grid),
        final(out)@ == old(out)@.union(spec_octant_set(grid, *sw, sw.radius + 1)),
{
    let ghost out0 = out@;
    let mut current: Vec<Interval> = Vec::new();
    current.push(Interval { start: Slope { num: 0, den: 1 }, end: Slope { num: 1, den: 1 } });
    let mut depth: i64 = 1;
    while depth <= sw.radius as i64 && current.len() > 0
        invariant
            1 <= depth <= sw.radius + 1,
            out.wf(),
            grid.wf(),
            out.same_size(grid),
            spec_all_wf(current@),
            current@ == spec_level(grid, *sw, depth as int),
            out@ == out0.union(spec_octant_set(grid, *sw, depth as int)),
        decreases sw.radius + 1 - depth,
    {
        let next = scan_level(out, grid, sw, depth, &current);
        current = next;
        depth = depth + 1;
    }
    proof {
        if depth <= sw.radius {
            assert forall|p: (int, int)|
                spec_octant_set(grid, *sw, sw.radius + 1).contains(p) implies spec_octant_set(
                grid,
                *sw,
                depth as int,
            ).contains(p) by {
                let l = spec_local(*sw, p);
                if l.1 >= depth {
                    lemma_empty_level(grid, *sw, depth as int, l.1);
                }
            }
        }
    }
}

/// Computes the tiles that are visible from `origin` within `radius`.
///
/// `grid` holds the tiles that block the view. The result is a grid of the
/// same size that holds exactly the visible tiles; nothing is visible
/// within a negative radius. The result depends on nothing but the
/// arguments.
pub fn recompute(origin: (i32, i32), radius: i32, grid: &BitGrid) -> (out: BitGrid)
    requires
        grid.wf(),
    ensures
        out.wf(),
        out.same_size(grid),
        out@ == spec_visible(grid, (origin.0 as int, origin.1 as int), radius as int),
{
    let ghost o = (origin.0 as int, origin.1 as int);
    proof {
        crate::geometry::lemma_index_bounds(0, 0, 1, 1);
    }
    let mut out = BitGrid::new(grid.width, grid.height);
    if radius < 0 {
        return out;
    }
    out.set(origin.0, origin.1, true);
    let mut octant: u8 = 0;
    while octant < 8
        invariant
            octant <= 8,
            0 <= radius,
            o == (origin.0 as int, origin.1 as int),
            out.wf(),
            grid.wf(),
            out.same_size(grid),
            out@ == Set::new(|t: (int, int)| spec_sees_upto(grid, o, radius as int, octant as int,
                t)),
        decreases 8 - octant,
    {
        let sw = Sweep { x: origin.0, y: origin.1, radius, octant };
        scan_octant(&mut out, grid, &sw);
        proof {
            let target = Set::new(
                |t: (int, int)| spec_sees_upto(grid, o, radius as int, octant + 1, t),
            );
            assert forall|p: (int, int)| out@.contains(p) == target.contains(p) by {
                lemma_tile_of_local(sw, p);
                let seen_here = spec_octant_sees_tile(grid, o, radius as int, octant as int, p);
                assert(seen_here == spec_octant_sees(
                    grid,
                    sw,
                    spec_local(sw, p).0,
                    spec_local(sw, p).1,
                ));
                if spec_sees_upto(grid, o, radius as int, octant + 1, p) && p != o {
                    let k = choose|k: int|
                        0 <= k < octant + 1 && #[trigger] spec_octant_sees_tile(
                            grid,
                            o,
                            radius as int,
                            k,
                            p,
                        );
                    if k < octant {
                        assert(spec_sees_upto(grid, o, radius as int, octant as int, p));
                    }
                }
                if spec_sees_upto(grid, o, radius as int, octant as int, p) && p != o {
                    let k = choose|k: int|
                        0 <= k < octant && #[trigger] spec_octant_sees_tile(
                            grid,
                            o,
                            radius as int,
                            k,
                            p,
                        );
                    assert(0 <= k < octant + 1);
                }
            }
        }
        octant = octant + 1;
    }
    out
}

/// Recomputes what is visible from `origin` and remembers it.
///
/// The visible set is replaced by what `recompute` finds within the range
/// of `fov`; the seen set grows by it and loses nothing.
pub fn update_fov(fov: &mut FieldOfView, origin: (i32, i32), grid: &BitGrid)
    requires
        old(fov).wf(),
        grid.wf(),
        old(fov).visible.same_size(grid),
    ensures
        final(fov).wf(),
        final(fov).range == old(fov).range,
        final(fov).visible.same_size(grid),
        final(fov).visible@ == spec_visible(
            grid,
            (origin.0 as int, origin.1 as int),
            old(fov).range as int,
        ),
        final(fov).seen@ == old(fov).seen@.union(final(fov).visible@),
{
    let visible = recompute(origin, fov.range, grid);
    fov.seen.union_with(&visible);
    fov.visible = visible;
}

/// A visible tile lies on the grid and within the radius of the origin,
/// under the rule that compares the squared distance with
/// `radius * (radius + 1)`.
pub proof fn lemma_visible_in_range(grid: &BitGrid, origin: (int, int), radius: int, t: (int, int))
    requires
        i32::MIN <= origin.0 <= i32::MAX,
        i32::MIN <= origin.1 <= i32::MAX,
        0 <= radius <= i32::MAX,
        spec_visible(grid, origin, radius).contains(t),
    ensures
        spec_in_bounds(t.0, t.1, grid.width as int, grid.height as int),
        spec_within_range(crate::geometry::spec_dist2(origin, t), radius),
{
    let dx = t.0 - origin.0;
    let dy = t.1 - origin.1;
    assert((-dx) * (-dx) == dx * dx) by (nonlinear_arith);
    assert((-dy) * (-dy) == dy * dy) by (nonlinear_arith);
    if t == origin {
        assert(0 <= radius * (radius + 1)) by (nonlinear_arith)
            requires
                0 <= radius,
        ;
        assert(dx * dx + dy * dy == 0) by (nonlinear_arith)
            requires
                dx == 0,
                dy == 0,
        ;
    } else {
        let o = choose|o: int|
            0 <= o < 8 && #[trigger] spec_octant_sees_tile(grid, origin, radius, o, t);
        let sw = Sweep {
            x: origin.0 as i32,
            y: origin.1 as i32,
            radius: radius as i32,
            octant: o as u8,
        };
        let l = spec_local(sw, t);
    }
}

/// The origin is visible whenever it lies on the grid and the radius is not
/// negative.
pub proof fn lemma_origin_visible(grid: &BitGrid, origin: (int, int), radius: int)
    requires
        0 <= radius,
        spec_in_bounds(origin.0, origin.1, grid.width as int, grid.height as int),
    ensures
        spec_visible(grid, origin, radius).contains(origin),
{
}

/// The eight tiles around the origin are visible whenever they lie on the
/// grid and the radius is at least one: nothing can stand in between.
pub proof fn lemma_neighbours_visible(grid: &BitGrid, origin: (int, int), radius: int, t: (int,
    int))
    requires
        i32::MIN <= origin.0 <= i32::MAX,
        i32::MIN <= origin.1 <= i32::MAX,
        1 <= radius <= i32::MAX,
        spec_in_bounds(t.0, t.1, grid.width as int, grid.height as int),
        -1 <= t.0 - origin.0 <= 1,
        -1 <= t.1 - origin.1 <= 1,
    ensures
        spec_visible(grid, origin, radius).contains(t),
{
    if t != origin {
        let dx = t.0 - origin.0;
        let dy = t.1 - origin.1;
        let o: int = if dy == -1 && dx >= 0 {
            0
        } else if dx == 1 {
            if dy <= 0 {
                1
            } else {
                2
            }
        } else if dy == 1 {
            if dx >= 0 {
                3
            } else {
                4
            }
        } else if dx == -1 {
            if dy >= 0 {
                5
            } else {
                6
            }
        } else {
            7
        };
        let sw = Sweep {
            x: origin.0 as i32,
            y: origin.1 as i32,
            radius: radius as i32,
            octant: o as u8,
        };
        let l = spec_local(sw, t);
        assert(l.1 == 1 && 0 <= l.0 <= 1);
        lemma_tile_of_local(sw, t);
        assert(radius * (radius + 1) >= 2) by (nonlinear_arith)
            requires
                1 <= radius,
        ;
        assert(spec_level(grid, sw, 1)[0] == Interval::spec_full());
        assert(spec_octant_sees_tile(grid, origin, radius, o, t));
    }
}

/// Whether two grids have the same size and block the same tiles.
pub open spec fn spec_same_blocking(a: &BitGrid, b: &BitGrid) -> bool {
    a.width == b.width && a.height == b.height && a@ == b@
}

proof fn lemma_blocks_same(a: &BitGrid, b: &BitGrid, sw: Sweep, col: int, depth: int)
    requires
        spec_same_blocking(a, b),
    ensures
        spec_blocks(a, sw, col, depth) == spec_blocks(b, sw, col, depth),
{
    let t = spec_tile(sw, col, depth);
    assert(a@.contains(t) == a.spec_get(t.0, t.1));
}

proof fn lemma_scan_same(
    a: &BitGrid,
    b: &BitGrid,
    sw: Sweep,
    depth: int,
    iv: Interval,
    col: int,
    start: Slope,
    prev: Option<bool>,
)
    requires
        spec_same_blocking(a, b),
    ensures
        spec_scan(a, sw, depth, iv, col, start, prev) == spec_scan(b, sw, depth, iv, col, start,
            prev),
    decreases depth - col + 1,
{
    if col > depth {
    } else if !spec_overlaps(col, depth, iv) {
        lemma_scan_same(a, b, sw, depth, iv, col + 1, start, prev);
    } else {
        lemma_blocks_same(a, b, sw, col, depth);
        let blocking = spec_blocks(a, sw, col, depth);
        let next_start = if prev == Some(true) && !blocking {
            spec_edge(col, depth)
        } else {
            start
        };
        lemma_scan_same(a, b, sw, depth, iv, col + 1, next_start, Some(blocking));
    }
}

proof fn lemma_level_children_same(a: &BitGrid, b: &BitGrid, sw: Sweep, depth: int,
    ivs: Seq<Interval>)
    requires
        spec_same_blocking(a, b),
    ensures
        spec_level_children(a, sw, depth, ivs) == spec_level_children(b, sw, depth, ivs),
    decreases ivs.len(),
{
    if ivs.len() > 0 {
        lemma_level_children_same(a, b, sw, depth, ivs.drop_last());
        lemma_scan_same(a, b, sw, depth, ivs.last(), 0, ivs.last().start, None);
    }
}

proof fn lemma_level_same(a: &BitGrid, b: &BitGrid, sw: Sweep, depth: int)
    requires
        spec_same_blocking(a, b),
    ensures
        spec_level(a, sw, depth) == spec_level(b, sw, depth),
    decreases depth,
{
    if depth > 1 {
        lemma_level_same(a, b, sw, depth - 1);
        lemma_level_children_same(a, b, sw, depth - 1, spec_level(a, sw, depth - 1));
    }
}

/// What is visible is determined by the origin, the radius, the size of the
/// grid and the set of tiles that block the view, and by nothing else: two
/// computations on the same of these find the same tiles.
pub proof fn lemma_visible_determined(a: &BitGrid, b: &BitGrid, origin: (int, int), radius: int)
    requires
        spec_same_blocking(a, b),
    ensures
        spec_visible(a, origin, radius) == spec_visible(b, origin, radius),
{
    assert forall|t: (int, int), o: int|
        spec_octant_sees_tile(a, origin, radius, o, t) == spec_octant_sees_tile(
            b,
            origin,
            radius,
            o,
            t,
        ) by {
        let sw = Sweep {
            x: origin.0 as i32,
            y: origin.1 as i32,
            radius: radius as i32,
            octant: o as u8,
        };
        lemma_level_same(a, b, sw, spec_local(sw, t).1);
    }
}

} // verus!
