//! The component kinds that an entity can carry.

use vstd::prelude::*;
use crate::bitgrid::BitGrid;

verus! {

/// The identifier of an entity: the number of its slot in the world store.
#[derive(Clone, Copy, PartialEq, Eq, Structural, Debug)]
pub struct Entity(pub usize);

/// A tile coordinate.
#[derive(Clone, Copy, PartialEq, Eq, Structural, Debug)]
pub struct Position {
    pub x: i32,
    pub y: i32,
}

/// What an entity brings to a fight.
#[derive(Clone, Copy, PartialEq, Eq, Structural, Debug)]
pub struct CombatStats {
    pub max_hp: i32,
    pub hp: i32,
    pub defense: i32,
    pub power: i32,
}

impl CombatStats {
    /// No stat is negative, and `hp` does not exceed `max_hp`.
    pub open spec fn wf(&self) -> bool {
        &&& 0 <= self.hp <= self.max_hp
        &&& 0 <= self.defense
        &&& 0 <= self.power
    }
}

/// What an entity sees and what it has ever seen.
pub struct FieldOfView {
    pub range: i32,
    pub visible: BitGrid,
    pub seen: BitGrid,
}

impl FieldOfView {
    /// Both grids are sound and cover the same tiles, and the range is not
    /// negative.
    pub open spec fn wf(&self) -> bool {
        &&& 0 <= self.range
        &&& self.visible.wf()
        &&& self.seen.wf()
        &&& self.visible.same_size(&self.seen)
    }

    /// Whether the grids cover a map of `width` by `height` tiles.
    pub open spec fn fits(&self, width: int, height: int) -> bool {
        self.visible.width == width && self.visible.height == height
    }

    /// A field of view of the given `range` over a map of `width` by `height`
    /// tiles, with nothing visible and nothing seen yet.
    pub fn new(range: i32, width: i32, height: i32) -> (fov: FieldOfView)
        requires
            0 <= range,
            0 <= width,
            0 <= height,
            width * height <= usize::MAX,
        ensures
            fov.wf(),
            fov.range == range,
            fov.fits(width as int, height as int),
            fov.visible@ == Set::<(int, int)>::empty(),
            fov.seen@ == Set::<(int, int)>::empty(),
    {
        FieldOfView {
            range,
            visible: BitGrid::new(width, height),
            seen: BitGrid::new(width, height),
        }
    }

    /// Whether tile `(x, y)` is visible right now.
    pub fn is_visible(&self, x: i32, y: i32) -> (b: bool)
        requires
            self.wf(),
        ensures
            b == self.visible@.contains((x as int, y as int)),
    {
        self.visible.get(x, y)
    }

    /// Whether tile `(x, y)` has ever been visible.
    pub fn is_seen(&self, x: i32, y: i32) -> (b: bool)
        requires
            self.wf(),
        ensures
            b == self.seen@.contains((x as int, y as int)),
    {
        self.seen.get(x, y)
    }
}

/// A colour of the palette.
#[derive(Clone, Copy, PartialEq, Eq, Structural, Debug)]
pub struct Color {
    pub r: u8,
    pub g: u8,
    pub b: u8,
}

/// How an entity is drawn on the map.
#[derive(Clone, Copy, PartialEq, Eq, Structural, Debug)]
pub struct Renderable {
    pub ch: char,
    pub fg: Color,
    pub bg: Color,
}

/// The roles of an entity.
#[derive(Clone, Copy, PartialEq, Eq, Structural, Debug)]
pub struct Tags {
    pub player: bool,
    pub monster: bool,
    pub item: bool,
    pub blocks_tile: bool,
}

impl Tags {
    /// No role at all.
    pub open spec fn spec_none() -> Tags {
        Tags { player: false, monster: false, item: false, blocks_tile: false }
    }

    /// No role at all.
    pub fn none() -> (t: Tags)
        ensures
            t == Tags::spec_none(),
    {
        Tags { player: false, monster: false, item: false, blocks_tile: false }
    }
}

} // verus!
