//! What the map grid shows: the tiles that the player has seen and whoever
//! stands in sight.

use vstd::prelude::*;
use crate::components::Entity;
use crate::map::Tile;
use crate::state::GameState;
use crate::ui::{
    append_cmds, black, gray, lemma_ops_push, recolor, spec_ops, spec_recolor, white, DrawCmd,
    DrawOp,
};

verus! {

/// The glyph of a kind of tile.
pub open spec fn spec_tile_glyph(tile: Tile) -> char {
    match tile {
        Tile::Floor => '.',
        Tile::Wall => '#',
        Tile::DownStairs => '>',
    }
}

/// The glyph of a kind of tile.
pub fn tile_glyph(tile: Tile) -> (c: char)
    ensures
        c == spec_tile_glyph(tile),
{
    match tile {
        Tile::Floor => '.',
        Tile::Wall => '#',
        Tile::DownStairs => '>',
    }
}

/// How far the cell of a tile lies from the tile on a grid of `width` by
/// `height` cells: the player is shown in the middle of the grid.
pub open spec fn spec_offset(state: &GameState, width: i32, height: i32) -> (int, int) {
    (
        width / 2 - state.world.spec_position(state.player).unwrap().x,
        height / 2 - state.world.spec_position(state.player).unwrap().y,
    )
}

/// How far the cell of a tile lies from the tile.
pub fn offset(state: &GameState, width: i32, height: i32) -> (off: (i64, i64))
    requires
        state.wf(),
        0 <= width,
        0 <= height,
    ensures
        (off.0 as int, off.1 as int) == spec_offset(state, width, height),
        -0x1_0000_0000 <= off.0 <= 0x1_0000_0000,
        -0x1_0000_0000 <= off.1 <= 0x1_0000_0000,
{
    let pos = state.world.position(state.player).unwrap();
    ((width / 2) as i64 - pos.x as i64, (height / 2) as i64 - pos.y as i64)
}

/// What cell `(col, row)` of the map grid says: the glyph of the tile that
/// is shown there, if the player has ever seen it; in white while the
/// player sees it, and in gray otherwise. A cell off the map and a tile
/// never seen are left alone.
pub open spec fn spec_map_cell(state: &GameState, col: int, row: int, off: (int, int), active: bool)
    -> Seq<DrawOp> {
    let x = col - off.0;
    let y = row - off.1;
    let fov = state.world.spec_fov(state.player).unwrap();
    if state.map.spec_in_bounds(x, y) && fov.seen@.contains((x, y)) {
        seq![
            DrawOp::Glyphs {
                x: col as i32,
                y: row as i32,
                len: 1,
                ch: spec_tile_glyph(state.map.spec_tile(x, y)),
                fg: spec_recolor(
                    if fov.visible@.contains((x, y)) {
                        white()
                    } else {
                        gray()
                    },
                    active,
                ),
                bg: black(),
            },
        ]
    } else {
        Seq::empty()
    }
}

/// What the first `n` cells of row `row` of the map grid say.
pub open spec fn spec_map_row(state: &GameState, row: int, n: int, off: (int, int), active: bool)
    -> Seq<DrawOp>
    decreases n,
{
    if n <= 0 {
        Seq::empty()
    } else {
        spec_map_row(state, row, n - 1, off, active) + spec_map_cell(
            state,
            n - 1,
            row,
            off,
            active,
        )
    }
}

/// What the first `m` rows of a map grid `width` cells wide say.
pub open spec fn spec_map_rows(
    state: &GameState,
    width: int,
    m: int,
    off: (int, int),
    active: bool,
) -> Seq<DrawOp>
    decreases m,
{
    if m <= 0 {
        Seq::empty()
    } else {
        spec_map_rows(state, width, m - 1, off, active) + spec_map_row(
            state,
            m - 1,
            width,
            off,
            active,
        )
    }
}

/// The calls that draw the tiles of the map on a grid of `width` by
/// `height` cells, row by row, with the player in the middle.
pub fn draw_map(state: &GameState, width: i32, height: i32, active: bool) -> (cmds: Vec<DrawCmd>)
    requires
        state.wf(),
        0 <= width,
        0 <= height,
    ensures
        spec_ops(cmds@) == spec_map_rows(
            state,
            width as int,
            height as int,
            spec_offset(state, width, height),
            active,
        ),
{
    let off = offset(state, width, height);
    let ghost o = (off.0 as int, off.1 as int);
    let player = state.player;
    let mut cmds: Vec<DrawCmd> = Vec::new();
    let mut row: i32 = 0;
    while row < height
        invariant
            0 <= row <= height,
            0 <= width,
            state.wf(),
            player == state.player,
            o == (off.0 as int, off.1 as int),
            -0x1_0000_0000 <= off.0 <= 0x1_0000_0000,
            -0x1_0000_0000 <= off.1 <= 0x1_0000_0000,
            spec_ops(cmds@) == spec_map_rows(state, width as int, row as int, o, active),
        decreases height - row,
    {
        let ghost done = spec_ops(cmds@);
        let mut col: i32 = 0;
        while col < width
            invariant
                0 <= row < height,
                0 <= col <= width,
                state.wf(),
                player == state.player,
                o == (off.0 as int, off.1 as int),
                -0x1_0000_0000 <= off.0 <= 0x1_0000_0000,
                -0x1_0000_0000 <= off.1 <= 0x1_0000_0000,
                spec_ops(cmds@) == done + spec_map_row(state, row as int, col as int, o, active),
            decreases width - col,
        {
            let x: i64 = col as i64 - off.0;
            let y: i64 = row as i64 - off.1;
            let ghost before = cmds@;
            if 0 <= x && x < state.map.width as i64 && 0 <= y && y < state.map.height as i64
                && state.world.has_seen(player, x as i32, y as i32) {
                let lit: bool = state.world.sees(player, x as i32, y as i32);
                cmds.push(
                    DrawCmd::Glyphs {
                        x: col,
                        y: row,
                        len: 1,
                        ch: tile_glyph(state.map.tile_kind(x as i32, y as i32)),
                        fg: recolor(
                            if lit {
                                white()
                            } else {
                                gray()
                            },
                            active,
                        ),
                        bg: black(),
                    },
                );
                proof {
                    lemma_ops_push(before, cmds@[cmds@.len() - 1]);
                }
            }
            col = col + 1;
        }
        row = row + 1;
    }
    cmds
}

/// What the map grid says about entity `e`: its glyph in its colours in
/// the cell of its tile, if it has a position and a glyph, stands on the
/// map where its position says, is in the player's sight, and its cell
/// lies on the grid.
pub open spec fn spec_entity_cell(
    state: &GameState,
    e: Entity,
    width: i32,
    height: i32,
    off: (int, int),
    active: bool,
) -> Seq<DrawOp> {
    if state.world.spec_position(e).is_some() && state.world.spec_renderable(e).is_some() {
        let p = state.world.spec_position(e).unwrap();
        let looks = state.world.spec_renderable(e).unwrap();
        let col = p.x + off.0;
        let row = p.y + off.1;
        if state.world.spec_fov(state.player).unwrap().visible@.contains((p.x as int, p.y as int))
            && state.map.spec_has_entity(e, p.x as int, p.y as int) && 0 <= col < width && 0
            <= row < height {
            seq![
                DrawOp::Glyphs {
                    x: col as i32,
                    y: row as i32,
                    len: 1,
                    ch: looks.ch,
                    fg: spec_recolor(looks.fg, active),
                    bg: spec_recolor(looks.bg, active),
                },
            ]
        } else {
            Seq::empty()
        }
    } else {
        Seq::empty()
    }
}

/// What the map grid says about the first `n` entities, in the order in
/// which they were created.
pub open spec fn spec_entities(
    state: &GameState,
    n: int,
    width: i32,
    height: i32,
    off: (int, int),
    active: bool,
) -> Seq<DrawOp>
    decreases n,
{
    if n <= 0 {
        Seq::empty()
    } else {
        spec_entities(state, n - 1, width, height, off, active) + spec_entity_cell(
            state,
            Entity((n - 1) as usize),
            width,
            height,
            off,
            active,
        )
    }
}

/// The calls that draw whoever stands in the player's sight on a grid of
/// `width` by `height` cells, with the player in the middle.
pub fn draw_renderables(state: &GameState, width: i32, height: i32, active: bool) -> (cmds: Vec<
    DrawCmd,
>)
    requires
        state.wf(),
        0 <= width,
        0 <= height,
    ensures
        spec_ops(cmds@) == spec_entities(
            state,
            state.world.live.len() as int,
            width,
            height,
            spec_offset(state, width, height),
            active,
        ),
{
    let off = offset(state, width, height);
    let ghost o = (off.0 as int, off.1 as int);
    let player = state.player;
    let n: usize = state.world.len();
    let mut cmds: Vec<DrawCmd> = Vec::new();
    let mut i: usize = 0;
    while i < n
        invariant
            i <= n,
            n == state.world.live.len(),
            0 <= width,
            0 <= height,
            state.wf(),
            player == state.player,
            o == (off.0 as int, off.1 as int),
            -0x1_0000_0000 <= off.0 <= 0x1_0000_0000,
            -0x1_0000_0000 <= off.1 <= 0x1_0000_0000,
            spec_ops(cmds@) == spec_entities(state, i as int, width, height, o, active),
        decreases n - i,
    {
        let e = Entity(i);
        let ghost before = cmds@;
        match (state.world.position(e), state.world.renderable(e)) {
            (Some(p), Some(looks)) => {
                let col: i64 = p.x as i64 + off.0;
                let row: i64 = p.y as i64 + off.1;
                if state.world.sees(player, p.x, p.y) && state.map.has_entity(e, p.x, p.y) && 0
                    <= col && col < width as i64 && 0 <= row && row < height as i64 {
                    cmds.push(
                        DrawCmd::Glyphs {
                            x: col as i32,
                            y: row as i32,
                            len: 1,
                            ch: looks.ch,
                            fg: recolor(looks.fg, active),
                            bg: recolor(looks.bg, active),
                        },
                    );
                    proof {
                        lemma_ops_push(before, cmds@[cmds@.len() - 1]);
                    }
                }
            },
            _ => {},
        }
        i = i + 1;
    }
    cmds
}

/// What the map grid shows of the game: the tiles, and on them whoever is
/// in sight.
pub open spec fn spec_scene(state: &GameState, width: i32, height: i32, active: bool) -> Seq<
    DrawOp,
> {
    spec_map_rows(
        state,
        width as int,
        height as int,
        spec_offset(state, width, height),
        active,
    ) + spec_entities(
        state,
        state.world.live.len() as int,
        width,
        height,
        spec_offset(state, width, height),
        active,
    )
}

/// The calls that draw the map and whoever is in sight on a grid of `width`
/// by `height` cells.
pub fn draw_scene(state: &GameState, width: i32, height: i32, active: bool) -> (cmds: Vec<DrawCmd>)
    requires
        state.wf(),
        0 <= width,
        0 <= height,
    ensures
        spec_ops(cmds@) == spec_scene(state, width, height, active),
{
    let mut cmds = draw_map(state, width, height, active);
    append_cmds(&mut cmds, draw_renderables(state, width, height, active));
    cmds
}

} // verus!
