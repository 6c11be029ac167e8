use rand::SeedableRng;
use rand_pcg::Pcg32;
use ruggle::components::{Color, FieldOfView};
use ruggle::map::Tile;
use ruggle::movement::move_entity;
use ruggle::render::{draw_map, draw_renderables, draw_scene, offset, tile_glyph};
use ruggle::rng::RuggleRng;
use ruggle::spawn::{spawn_kind_at, MonsterKind};
use ruggle::state::GameState;
use ruggle::ui::{DrawCmd, Options};

const WHITE: Color = Color { r: 255, g: 255, b: 255 };
const GRAY: Color = Color { r: 128, g: 128, b: 128 };
const BLACK: Color = Color { r: 0, g: 0, b: 0 };

fn small_state() -> GameState {
    let options = Options { tileset: 2, font: 0, map_zoom: 2, text_zoom: 1 };
    let mut state = GameState::new(7, 5, 4, options, RuggleRng(Pcg32::seed_from_u64(3)));
    for y in 0..5 {
        for x in 0..7 {
            state.map.set_tile(x, y, Tile::Floor);
        }
    }
    state.map.set_tile(3, 1, Tile::Wall);
    state.map.set_tile(1, 3, Tile::DownStairs);
    let player = state.player;
    state.world.set_fov(player, Some(FieldOfView::new(1, 7, 5)));
    assert!(move_entity(&mut state, player, (2, 2)));
    state
}

fn glyph(x: i32, y: i32, ch: char, fg: Color) -> DrawCmd {
    DrawCmd::Glyphs { x, y, len: 1, ch, fg, bg: BLACK }
}

#[test]
fn tiles_have_their_glyphs() {
    assert_eq!(tile_glyph(Tile::Floor), '.');
    assert_eq!(tile_glyph(Tile::Wall), '#');
    assert_eq!(tile_glyph(Tile::DownStairs), '>');
}

#[test]
fn the_player_is_shown_in_the_middle() {
    let state = small_state();
    assert_eq!(offset(&state, 3, 3), (-1, -1));
    assert_eq!(offset(&state, 21, 11), (8, 3));
    assert_eq!(offset(&state, 0, 0), (-2, -2));
}

#[test]
fn the_map_shows_what_was_seen() {
    let mut state = small_state();
    // Within a range of one the player sees its eight neighbours.
    assert_eq!(
        draw_map(&state, 3, 3, true),
        vec![
            glyph(0, 0, '.', WHITE),
            glyph(1, 0, '.', WHITE),
            glyph(2, 0, '#', WHITE),
            glyph(0, 1, '.', WHITE),
            glyph(1, 1, '.', WHITE),
            glyph(2, 1, '.', WHITE),
            glyph(0, 2, '>', WHITE),
            glyph(1, 2, '.', WHITE),
            glyph(2, 2, '.', WHITE),
        ]
    );
    assert_eq!(draw_map(&state, 5, 5, true).len(), 9);
    assert_eq!(draw_map(&state, 5, 5, true)[0], glyph(1, 1, '.', WHITE));
    assert!(draw_map(&state, 0, 3, true).is_empty());
    let player = state.player;
    assert!(move_entity(&mut state, player, (3, 2)));
    // The column that is out of sight now is remembered, and drawn gray.
    let dim = Color { r: 64, g: 64, b: 64 };
    assert_eq!(
        draw_map(&state, 5, 3, false),
        vec![
            glyph(0, 0, '.', dim),
            glyph(1, 0, '.', WHITE_DIMMED),
            glyph(2, 0, '#', WHITE_DIMMED),
            glyph(3, 0, '.', WHITE_DIMMED),
            glyph(0, 1, '.', dim),
            glyph(1, 1, '.', WHITE_DIMMED),
            glyph(2, 1, '.', WHITE_DIMMED),
            glyph(3, 1, '.', WHITE_DIMMED),
            glyph(0, 2, '>', dim),
            glyph(1, 2, '.', WHITE_DIMMED),
            glyph(2, 2, '.', WHITE_DIMMED),
            glyph(3, 2, '.', WHITE_DIMMED),
        ]
    );
    assert_eq!(draw_map(&state, 5, 3, true)[0], glyph(0, 0, '.', GRAY));
}

const WHITE_DIMMED: Color = Color { r: 127, g: 127, b: 127 };

#[test]
fn who_is_in_sight_is_drawn() {
    let mut state = small_state();
    let near = spawn_kind_at(&mut state, MonsterKind::Orc, (3, 3));
    let far = spawn_kind_at(&mut state, MonsterKind::Goblin, (5, 2));
    assert!(state.world.contains(near) && state.world.contains(far));
    let player_cell = DrawCmd::Glyphs {
        x: 2,
        y: 2,
        len: 1,
        ch: '@',
        fg: Color { r: 255, g: 255, b: 0 },
        bg: BLACK,
    };
    let orc_cell = DrawCmd::Glyphs {
        x: 3,
        y: 3,
        len: 1,
        ch: 'o',
        fg: Color { r: 230, g: 77, b: 51 },
        bg: BLACK,
    };
    assert_eq!(draw_renderables(&state, 5, 5, true), vec![player_cell, orc_cell]);
    // On a grid of three by three cells the orc's cell is the corner.
    let drawn = draw_renderables(&state, 3, 3, false);
    assert_eq!(drawn.len(), 2);
    assert_eq!(
        drawn[1],
        DrawCmd::Glyphs {
            x: 2,
            y: 2,
            len: 1,
            ch: 'o',
            fg: Color { r: 115, g: 38, b: 25 },
            bg: BLACK,
        }
    );
    assert_eq!(draw_renderables(&state, 1, 1, true).len(), 1);
    let scene = draw_scene(&state, 5, 5, true);
    assert_eq!(scene.len(), 9 + 2);
    assert_eq!(scene[..9], draw_map(&state, 5, 5, true)[..]);
    assert_eq!(scene[9..], draw_renderables(&state, 5, 5, true)[..]);
}
