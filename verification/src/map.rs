//! The dungeon map: tile kinds, who stands where, and which tiles are blocked.

use vstd::prelude::*;
use crate::bitgrid::BitGrid;
use crate::components::Entity;
use crate::geometry::{
    grid_index, in_bounds, lemma_index_bounds, lemma_index_injective, spec_in_bounds, spec_index,
    spec_precedes,
};

verus! {

/// The kind of a tile.
#[derive(Clone, Copy, PartialEq, Eq, Structural, Debug)]
pub enum Tile {
    Floor,
    Wall,
    DownStairs,
}

impl Tile {
    /// Whether nothing can walk onto a tile of this kind.
    pub open spec fn spec_impassable(&self) -> bool {
        *self == Tile::Wall
    }

    /// Whether a tile of this kind hides what lies behind it.
    pub open spec fn spec_opaque(&self) -> bool {
        *self == Tile::Wall
    }

    /// The name of the kind, as shown to the player.
    pub open spec fn spec_name(&self) -> Seq<char> {
        match self {
            Tile::Floor => "Floor"@,
            Tile::Wall => "Wall"@,
            Tile::DownStairs => "Down stairs"@,
        }
    }

    /// Whether nothing can walk onto a tile of this kind.
    pub fn impassable(&self) -> (b: bool)
        ensures
            b == self.spec_impassable(),
    {
        match self {
            Tile::Wall => true,
            _ => false,
        }
    }

    /// Whether a tile of this kind hides what lies behind it.
    pub fn opaque(&self) -> (b: bool)
        ensures
            b == self.spec_opaque(),
    {
        match self {
            Tile::Wall => true,
            _ => false,
        }
    }

    /// The name of the kind, as shown to the player.
    pub fn name(&self) -> (s: &'static str)
        ensures
            s@ == self.spec_name(),
    {
        match self {
            Tile::Floor => "Floor",
            Tile::Wall => "Wall",
            Tile::DownStairs => "Down stairs",
        }
    }
}

/// An entity on a tile, with whether it blocks the tile.
#[derive(Clone, Copy, PartialEq, Eq, Structural, Debug)]
pub struct Occupant {
    pub id: Entity,
    pub blocks: bool,
}

/// A rectangle of tiles, both corners inside it.
#[derive(Clone, Copy, PartialEq, Eq, Structural, Debug)]
pub struct Rect {
    pub x1: i32,
    pub y1: i32,
    pub x2: i32,
    pub y2: i32,
}

impl Rect {
    /// Whether tile `(x, y)` lies in the rectangle.
    pub open spec fn spec_contains(&self, x: int, y: int) -> bool {
        self.x1 <= x <= self.x2 && self.y1 <= y <= self.y2
    }

    /// How many tiles wide the rectangle is.
    pub open spec fn spec_columns(&self) -> int {
        if self.x1 <= self.x2 {
            self.x2 - self.x1 + 1
        } else {
            0
        }
    }

    /// How many tiles the rectangle has.
    pub open spec fn spec_tile_count(&self) -> int {
        if self.y1 <= self.y2 {
            (self.y2 - self.y1 + 1) * self.spec_columns()
        } else {
            0
        }
    }

    /// The tiles of the rectangle, each once, row by row and each row from
    /// the left.
    pub fn iter_xy(&self) -> (v: Vec<(i32, i32)>)
        ensures
            v.len() == self.spec_tile_count(),
            forall|k: int|
                0 <= k < v.len() ==> self.spec_contains(
                    (#[trigger] v[k]).0 as int,
                    v[k].1 as int,
                ),
            forall|j: int, k: int|
                0 <= j < k < v.len() ==> spec_precedes(
                    (v[j].0 as int, v[j].1 as int),
                    (v[k].0 as int, v[k].1 as int),
                ),
            forall|x: int, y: int|
                self.spec_contains(x, y) ==> exists|k: int|
                    0 <= k < v.len() && #[trigger] v[k] == (x as i32, y as i32),
    {
        let mut v: Vec<(i32, i32)> = Vec::new();
        let mut y: i64 = self.y1 as i64;
        while y <= self.y2 as i64
            invariant
                self.y1 <= y <= self.y2 + 1 || self.y2 < self.y1,
                self.y1 <= y,
                self.y2 < self.y1 ==> y == self.y1,
                v.len() == (y - self.y1) * self.spec_columns(),
                forall|k: int|
                    0 <= k < v.len() ==> self.spec_contains(
                        (#[trigger] v[k]).0 as int,
                        v[k].1 as int,
                    ) && v[k].1 < y,
                forall|j: int, k: int|
                    0 <= j < k < v.len() ==> spec_precedes(
                        (v[j].0 as int, v[j].1 as int),
                        (v[k].0 as int, v[k].1 as int),
                    ),
                forall|x: int, yy: int|
                    self.spec_contains(x, yy) && yy < y ==> exists|k: int|
                        0 <= k < v.len() && #[trigger] v[k] == (x as i32, yy as i32),
            decreases self.y2 + 1 - y,
        {
            let mut x: i64 = self.x1 as i64;
            while x <= self.x2 as i64
                invariant
                    self.x1 <= x,
                    x <= self.x2 + 1 || self.x2 < self.x1,
                    self.x2 < self.x1 ==> x == self.x1,
                    self.y1 <= y <= self.y2,
                    v.len() == (y - self.y1) * self.spec_columns() + (x - self.x1),
                    forall|k: int|
                        0 <= k < v.len() ==> self.spec_contains(
                            (#[trigger] v[k]).0 as int,
                            v[k].1 as int,
                        ) && (v[k].1 < y || (v[k].1 == y && v[k].0 < x)),
                    forall|j: int, k: int|
                        0 <= j < k < v.len() ==> spec_precedes(
                            (v[j].0 as int, v[j].1 as int),
                            (v[k].0 as int, v[k].1 as int),
                        ),
                    forall|xx: int, yy: int|
                        self.spec_contains(xx, yy) && (yy < y || (yy == y && xx < x))
                            ==> exists|k: int|
                            0 <= k < v.len() && #[trigger] v[k] == (xx as i32, yy as i32),
                decreases self.x2 + 1 - x,
            {
                let ghost before = v@;
                v.push((x as i32, y as i32));
                proof {
                    assert forall|xx: int, yy: int|
                        self.spec_contains(xx, yy) && (yy < y || (yy == y && xx
                            <= x)) implies exists|
                        k: int,
                    | 0 <= k < v.len() && #[trigger] v[k] == (xx as i32, yy as i32) by {
                        if yy == y && xx == x {
                            assert(v[v.len() - 1] == (xx as i32, yy as i32));
                        } else {
                            let k = choose|k: int|
                                0 <= k < before.len() && #[trigger] before[k] == (
                                    xx as i32,
                                    yy as i32,
                                );
                            assert(v[k] == before[k]);
                        }
                    }
                }
                x = x + 1;
            }
            proof {
                let columns = self.spec_columns();
                assert((y + 1 - self.y1) * columns == (y - self.y1) * columns + columns)
                    by (nonlinear_arith);
            }
            y = y + 1;
        }
        proof {
            assert(0 * self.spec_columns() == 0) by (nonlinear_arith);
        }
        v
    }
}

/// Whether some occupant of a tile blocks it.
pub open spec fn spec_any_blocks(s: Seq<Occupant>) -> bool {
    exists|k: int| 0 <= k < s.len() && #[trigger] s[k].blocks
}

/// Whether entity `id` is among the occupants of a tile.
pub open spec fn spec_occupies(s: Seq<Occupant>, id: Entity) -> bool {
    exists|k: int| 0 <= k < s.len() && #[trigger] s[k].id == id
}

/// The identifiers of the occupants of a tile, in order of arrival.
pub open spec fn spec_ids(s: Seq<Occupant>) -> Seq<Entity> {
    Seq::new(s.len(), |k: int| s[k].id)
}

/// A fixed-size grid of tiles with the entities that stand on each.
pub struct GameMap {
    pub width: i32,
    pub height: i32,
    pub depth: i32,
    pub tiles: Vec<Tile>,
    pub occupants: Vec<Vec<Occupant>>,
    pub blocked: Vec<bool>,
    pub sight: BitGrid,
    pub rooms: Vec<Rect>,
}

impl GameMap {
    /// Every tile has its kind, its occupants, its blocked bit and its bit
    /// in the sight mask. A tile is blocked exactly if its kind is
    /// impassable or one of its occupants blocks it. No entity stands twice
    /// on one tile, and no two that block stand on the same tile.
    pub open spec fn wf(&self) -> bool {
        &&& 0 < self.width
        &&& 0 < self.height
        &&& self.tiles.len() == self.width * self.height
        &&& self.occupants.len() == self.tiles.len()
        &&& self.blocked.len() == self.tiles.len()
        &&& self.sight.wf()
        &&& self.sight.width == self.width
        &&& self.sight.height == self.height
        &&& forall|i: int|
            0 <= i < self.tiles.len() ==> #[trigger] self.blocked[i] == (
            self.tiles[i].spec_impassable() || spec_any_blocks(self.occupants[i]@))
        &&& forall|i: int|
            0 <= i < self.tiles.len() ==> #[trigger] self.sight.bits[i]
                == self.tiles[i].spec_opaque()
        &&& forall|i: int, j: int, k: int|
            0 <= i < self.tiles.len() && 0 <= j < k < self.occupants[i].len() ==> (
            #[trigger] self.occupants[i][j]).id != (#[trigger] self.occupants[i][k]).id
        &&& forall|i: int, j: int, k: int|
            0 <= i < self.tiles.len() && 0 <= j < k < self.occupants[i].len() ==> !((
            #[trigger] self.occupants[i][j]).blocks && (#[trigger] self.occupants[i][k]).blocks)
    }

    /// Whether `(x, y)` is a tile of the map.
    pub open spec fn spec_in_bounds(&self, x: int, y: int) -> bool {
        spec_in_bounds(x, y, self.width as int, self.height as int)
    }

    /// The position of tile `(x, y)` in the map's tables.
    pub open spec fn spec_idx(&self, x: int, y: int) -> int {
        spec_index(x, y, self.width as int)
    }

    /// The kind of tile `(x, y)`; what lies off the map counts as wall.
    pub open spec fn spec_tile(&self, x: int, y: int) -> Tile {
        if self.spec_in_bounds(x, y) {
            self.tiles[self.spec_idx(x, y)]
        } else {
            Tile::Wall
        }
    }

    /// The occupants of tile `(x, y)`, in order of arrival; none off the map.
    pub open spec fn spec_occupants(&self, x: int, y: int) -> Seq<Occupant> {
        if self.spec_in_bounds(x, y) {
            self.occupants[self.spec_idx(x, y)]@
        } else {
            Seq::empty()
        }
    }

    /// Whether tile `(x, y)` is blocked; what lies off the map is.
    pub open spec fn spec_is_blocked(&self, x: int, y: int) -> bool {
        !self.spec_in_bounds(x, y) || self.blocked[self.spec_idx(x, y)]
    }

    /// Whether entity `id` stands on tile `(x, y)`.
    pub open spec fn spec_has_entity(&self, id: Entity, x: int, y: int) -> bool {
        spec_occupies(self.spec_occupants(x, y), id)
    }

    /// Whether entity `id` stands on no tile of the map.
    pub open spec fn spec_absent(&self, id: Entity) -> bool {
        forall|i: int, k: int|
            0 <= i < self.occupants.len() && 0 <= k < self.occupants[i].len() ==> (
            #[trigger] self.occupants[i][k]).id != id
    }

    /// A map of `width` by `height` wall tiles, with nobody on it.
    pub fn new(width: i32, height: i32) -> (m: GameMap)
        requires
            0 < width,
            0 < height,
            width * height <= usize::MAX,
        ensures
            m.wf(),
            m.width == width,
            m.height == height,
            m.depth == 1,
            m.rooms@.len() == 0,
            forall|i: int| 0 <= i < m.tiles.len() ==> m.tiles[i] == Tile::Wall,
            forall|i: int| 0 <= i < m.occupants.len() ==> (#[trigger] m.occupants[i]).len() == 0,
    {
        assert(0 <= width * height) by (nonlinear_arith)
            requires
                0 < width,
                0 < height,
        ;
        let n: usize = (width as usize) * (height as usize);
        let mut tiles: Vec<Tile> = Vec::new();
        let mut occupants: Vec<Vec<Occupant>> = Vec::new();
        let mut blocked: Vec<bool> = Vec::new();
        let mut sight = BitGrid::new(width, height);
        let mut i: usize = 0;
        while i < n
            invariant
                i <= n,
                n == width * height,
                tiles.len() == i,
                occupants.len() == i,
                blocked.len() == i,
                sight.bits.len() == n,
                sight.width == width,
                sight.height == height,
                forall|k: int| 0 <= k < i ==> tiles[k] == Tile::Wall,
                forall|k: int| 0 <= k < i ==> (#[trigger] occupants[k]).len() == 0,
                forall|k: int| 0 <= k < i ==> #[trigger] blocked[k],
                forall|k: int| 0 <= k < i ==> #[trigger] sight.bits[k],
            decreases n - i,
        {
            tiles.push(Tile::Wall);
            occupants.push(Vec::new());
            blocked.push(true);
            sight.bits.set(i, true);
            i = i + 1;
        }
        GameMap { width, height, depth: 1, tiles, occupants, blocked, sight, rooms: Vec::new() }
    }

    /// Whether `(x, y)` is a tile of the map.
    pub fn in_bounds(&self, x: i32, y: i32) -> (b: bool)
        ensures
            b == self.spec_in_bounds(x as int, y as int),
    {
        in_bounds(x, y, self.width, self.height)
    }

    fn idx(&self, x: i32, y: i32) -> (i: usize)
        requires
            self.wf(),
            self.spec_in_bounds(x as int, y as int),
        ensures
            i == self.spec_idx(x as int, y as int),
            i < self.tiles.len(),
    {
        grid_index(x, y, self.width, self.height)
    }

    /// The kind of tile `(x, y)`; what lies off the map counts as wall.
    pub fn tile_kind(&self, x: i32, y: i32) -> (t: Tile)
        requires
            self.wf(),
        ensures
            t == self.spec_tile(x as int, y as int),
    {
        if self.in_bounds(x, y) {
            let i: usize = self.idx(x, y);
            self.tiles[i]
        } else {
            Tile::Wall
        }
    }

    /// Whether tile `(x, y)` is blocked: by its kind, by an occupant that
    /// blocks it, or by lying off the map.
    pub fn is_blocked(&self, x: i32, y: i32) -> (b: bool)
        requires
            self.wf(),
        ensures
            b == self.spec_is_blocked(x as int, y as int),
            b == (self.spec_tile(x as int, y as int).spec_impassable() || spec_any_blocks(
                self.spec_occupants(x as int, y as int),
            )),
    {
        if self.in_bounds(x, y) {
            let i: usize = self.idx(x, y);
            self.blocked[i]
        } else {
            true
        }
    }

    /// The entities on tile `(x, y)`, in order of arrival.
    pub fn entities_at(&self, x: i32, y: i32) -> (v: Vec<Entity>)
        requires
            self.wf(),
        ensures
            v@ == spec_ids(self.spec_occupants(x as int, y as int)),
    {
        let mut v: Vec<Entity> = Vec::new();
        if self.in_bounds(x, y) {
            let i: usize = self.idx(x, y);
            let row = &self.occupants[i];
            let mut k: usize = 0;
            while k < row.len()
                invariant
                    k <= row.len(),
                    v.len() == k,
                    forall|j: int| 0 <= j < k ==> v[j] == row[j].id,
                decreases row.len() - k,
            {
                v.push(row[k].id);
                k = k + 1;
            }
        } else {
        }
        v
    }

    /// Whether entity `id` stands on tile `(x, y)`.
    pub fn has_entity(&self, id: Entity, x: i32, y: i32) -> (b: bool)
        requires
            self.wf(),
        ensures
            b == self.spec_has_entity(id, x as int, y as int),
    {
        if self.in_bounds(x, y) {
            let i: usize = self.idx(x, y);
            let row = &self.occupants[i];
            let mut k: usize = 0;
            while k < row.len()
                invariant
                    k <= row.len(),
                    row@ == self.spec_occupants(x as int, y as int),
                    forall|j: int| 0 <= j < k ==> row[j].id != id,
                decreases row.len() - k,
            {
                if row[k].id == id {
                    return true;
                }
                k = k + 1;
            }
            false
        } else {
            false
        }
    }

    /// Changes the kind of tile `(x, y)`; a tile off the map is left alone.
    pub fn set_tile(&mut self, x: i32, y: i32, tile: Tile)
        requires
            old(self).wf(),
        ensures
            final(self).wf(),
            final(self).width == old(self).width,
            final(self).height == old(self).height,
            final(self).depth == old(self).depth,
            final(self).occupants == old(self).occupants,
            final(self).rooms == old(self).rooms,
            !old(self).spec_in_bounds(x as int, y as int) ==> *final(self) == *old(self),
            old(self).spec_in_bounds(x as int, y as int) ==> final(self).tiles@
                == old(self).tiles@.update(old(self).spec_idx(x as int, y as int), tile),
    {
        if self.in_bounds(x, y) {
            let i: usize = self.idx(x, y);
            let blocks: bool = tile.impassable() || self.blocked_by_occupant(i);
            self.tiles.set(i, tile);
            self.blocked.set(i, blocks);
            self.sight.bits.set(i, tile.opaque());
        }
    }

    fn blocked_by_occupant(&self, i: usize) -> (b: bool)
        requires
            i < self.occupants.len(),
        ensures
            b == spec_any_blocks(self.occupants[i as int]@),
    {
        let row = &self.occupants[i];
        let mut k: usize = 0;
        while k < row.len()
            invariant
                k <= row.len(),
                i < self.occupants.len(),
                row@ == self.occupants[i as int]@,
                forall|j: int| 0 <= j < k ==> !row[j].blocks,
            decreases row.len() - k,
        {
            if row[k].blocks {
                return true;
            }
            k = k + 1;
        }
        false
    }

    /// Whether an occupant of tile `(x, y)` blocks it.
    pub open spec fn spec_has_blocker(&self, x: int, y: int) -> bool {
        spec_any_blocks(self.spec_occupants(x, y))
    }

    /// Whether entity `id` can be put on tile `(x, y)`: the tile is on the
    /// map, the entity does not stand on it yet, and an entity that blocks
    /// finds no other there that does. The kind of the tile does not
    /// matter.
    pub open spec fn spec_can_place(&self, id: Entity, x: int, y: int, blocks: bool) -> bool {
        &&& self.spec_in_bounds(x, y)
        &&& !self.spec_has_entity(id, x, y)
        &&& blocks ==> !self.spec_has_blocker(x, y)
    }

    /// Whether an occupant of tile `(x, y)` blocks it.
    pub fn has_blocker(&self, x: i32, y: i32) -> (b: bool)
        requires
            self.wf(),
        ensures
            b == self.spec_has_blocker(x as int, y as int),
    {
        if self.in_bounds(x, y) {
            let i: usize = self.idx(x, y);
            self.blocked_by_occupant(i)
        } else {
            assert(!spec_any_blocks(Seq::<Occupant>::empty()));
            false
        }
    }

    /// Whether entity `id` can be put on tile `pos`.
    pub fn can_place(&self, id: Entity, pos: (i32, i32), blocks: bool) -> (b: bool)
        requires
            self.wf(),
        ensures
            b == self.spec_can_place(id, pos.0 as int, pos.1 as int, blocks),
    {
        self.in_bounds(pos.0, pos.1) && !self.has_entity(id, pos.0, pos.1) && !(blocks
            && self.has_blocker(pos.0, pos.1))
    }

    /// Puts entity `id` on tile `pos`, behind those that stand there.
    ///
    /// The tile may be of any kind. That it is a tile of the map, that the
    /// entity does not stand on it yet and that no second blocker comes to
    /// a tile is for the caller to see to: `can_place` tells.
    pub fn place_entity(&mut self, id: Entity, pos: (i32, i32), blocks: bool)
        requires
            old(self).wf(),
            old(self).spec_can_place(id, pos.0 as int, pos.1 as int, blocks),
        ensures
            final(self).wf(),
            final(self).width == old(self).width,
            final(self).height == old(self).height,
            final(self).depth == old(self).depth,
            final(self).tiles == old(self).tiles,
            final(self).sight == old(self).sight,
            final(self).rooms == old(self).rooms,
            final(self).occupants.len() == old(self).occupants.len(),
            final(self).occupants[old(self).spec_idx(pos.0 as int, pos.1 as int)]@
                == old(self).occupants[old(self).spec_idx(pos.0 as int, pos.1 as int)]@.push(
                Occupant { id, blocks },
            ),
            forall|i: int|
                0 <= i < old(self).occupants.len() && i != old(self).spec_idx(
                    pos.0 as int,
                    pos.1 as int,
                ) ==> #[trigger] final(self).occupants[i] == old(self).occupants[i],
            forall|i: int|
                0 <= i < old(self).blocked.len() && i != old(self).spec_idx(
                    pos.0 as int,
                    pos.1 as int,
                ) ==> #[trigger] final(self).blocked[i] == old(self).blocked[i],
    {
        let i: usize = self.idx(pos.0, pos.1);
        let ghost row = self.occupants[i as int]@;
        self.occupants[i].push(Occupant { id, blocks });
        if blocks {
            self.blocked.set(i, true);
        }
        proof {
            let after = self.occupants[i as int]@;
            if spec_any_blocks(row) {
                let k = choose|k: int| 0 <= k < row.len() && #[trigger] row[k].blocks;
                assert(after[k].blocks);
            }
            if blocks {
                assert(after[row.len() as int].blocks);
            }
        }
    }

    /// Takes entity `id` off tile `(x, y)` and says whether it stood there.
    pub fn remove_entity(&mut self, id: Entity, pos: (i32, i32)) -> (removed: bool)
        requires
            old(self).wf(),
        ensures
            final(self).wf(),
            removed == old(self).spec_has_entity(id, pos.0 as int, pos.1 as int),
            !removed ==> *final(self) == *old(self),
            !final(self).spec_has_entity(id, pos.0 as int, pos.1 as int),
            forall|i: int, o: Occupant|
                0 <= i < old(self).occupants.len()
                    ==> (#[trigger] final(self).occupants[i]@.contains(
                    o,
                ) <==> old(self).occupants[i]@.contains(o) && !(old(self).spec_in_bounds(
                    pos.0 as int,
                    pos.1 as int,
                ) && i == old(self).spec_idx(pos.0 as int, pos.1 as int) && o.id == id)),
            final(self).width == old(self).width,
            final(self).height == old(self).height,
            final(self).depth == old(self).depth,
            final(self).tiles == old(self).tiles,
            final(self).sight == old(self).sight,
            final(self).rooms == old(self).rooms,
            final(self).occupants.len() == old(self).occupants.len(),
            removed ==> exists|k: int|
                0 <= k < old(self).spec_occupants(pos.0 as int, pos.1 as int).len()
                    && old(self).spec_occupants(pos.0 as int, pos.1 as int)[k].id == id
                    && final(self).spec_occupants(pos.0 as int, pos.1 as int)
                    == #[trigger] old(self).spec_occupants(pos.0 as int, pos.1 as int).remove(k),
            forall|i: int|
                0 <= i < old(self).occupants.len() && i != old(self).spec_idx(
                    pos.0 as int,
                    pos.1 as int,
                ) ==> #[trigger] final(self).occupants[i] == old(self).occupants[i],
            forall|i: int|
                0 <= i < old(self).blocked.len() && i != old(self).spec_idx(
                    pos.0 as int,
                    pos.1 as int,
                ) ==> #[trigger] final(self).blocked[i] == old(self).blocked[i],
    {
        if !self.in_bounds(pos.0, pos.1) {
            return false;
        }
        let i: usize = self.idx(pos.0, pos.1);
        let ghost row = self.occupants[i as int]@;
        let n: usize = self.occupants[i].len();
        let mut k: usize = 0;
        while k < n && self.occupants[i][k].id != id
            invariant
                k <= n,
                i < self.occupants.len(),
                n == self.occupants[i as int].len(),
                row == self.occupants[i as int]@,
                forall|j: int| 0 <= j < k ==> row[j].id != id,
            decreases n - k,
        {
            k = k + 1;
        }
        if k == n {
            return false;
        }
        self.occupants[i].remove(k);
        let blocks: bool = self.tiles[i].impassable() || self.blocked_by_occupant(i);
        self.blocked.set(i, blocks);
        proof {
            let after = self.occupants[i as int]@;
            assert forall|o: Occupant|
                #[trigger] after.contains(o) <==> row.contains(o) && o.id != id by {
                if after.contains(o) {
                    let j = choose|j: int| 0 <= j < after.len() && after[j] == o;
                    let j0 = if j < k { j } else { j + 1 };
                    assert(after[j] == row[j0]);
                }
                if row.contains(o) && o.id != id {
                    let j0 = choose|j0: int| 0 <= j0 < row.len() && row[j0] == o;
                    let j = if j0 < k { j0 } else { j0 - 1 };
                    assert(after[j] == row[j0]);
                }
            }
        }
        true
    }
}

} // verus!
