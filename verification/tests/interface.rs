use rand::SeedableRng;
use rand_pcg::Pcg32;
use ruggle::components::{Color, Entity, Renderable, Tags};
use ruggle::damage::apply_damage;
use ruggle::map::Tile;
use ruggle::message::Messages;
use ruggle::modes::equipment_action::EquipmentActionMode;
use ruggle::modes::options_menu::OptionsMenuMode;
use ruggle::modes::target::TargetMode;
use ruggle::movement::move_entity;
use ruggle::rng::RuggleRng;
use ruggle::state::GameState;
use ruggle::ui::{
    black, blue, draw_messages, draw_status_line, draw_ui, gray, magenta, prepare_main_grids,
    purple, recolor, red, selected_bg, white, yellow, DrawCmd, GridLayout, Options, Size,
    MAP_GRID, UI_GRID,
};

const WHITE: Color = Color { r: 255, g: 255, b: 255 };
const BLACK: Color = Color { r: 0, g: 0, b: 0 };
const GRAY: Color = Color { r: 128, g: 128, b: 128 };
const SELECTED: Color = Color { r: 0, g: 128, b: 255 };

fn text(x: i32, y: i32, text: &str) -> DrawCmd {
    DrawCmd::Text { x, y, text: text.to_string(), fg: WHITE, bg: BLACK }
}

fn open_state() -> GameState {
    let options = Options { tileset: 2, font: 0, map_zoom: 2, text_zoom: 1 };
    let mut state = GameState::new(30, 30, 4, options, RuggleRng(Pcg32::seed_from_u64(3)));
    for y in 0..30 {
        for x in 0..30 {
            state.map.set_tile(x, y, Tile::Floor);
        }
    }
    let player = state.player;
    assert!(move_entity(&mut state, player, (10, 10)));
    state
}

#[test]
fn the_palette() {
    assert_eq!(white(), WHITE);
    assert_eq!(black(), BLACK);
    assert_eq!(gray(), GRAY);
    assert_eq!(red(), Color { r: 255, g: 0, b: 0 });
    assert_eq!(blue(), Color { r: 0, g: 0, b: 255 });
    assert_eq!(yellow(), Color { r: 255, g: 255, b: 0 });
    assert_eq!(magenta(), Color { r: 255, g: 0, b: 255 });
    assert_eq!(purple(), Color { r: 128, g: 0, b: 128 });
    assert_eq!(selected_bg(), SELECTED);
    assert_eq!(recolor(magenta(), true), magenta());
    assert_eq!(recolor(magenta(), false), Color { r: 127, g: 0, b: 127 });
    assert_eq!((MAP_GRID, UI_GRID), (0, 1));
}

#[test]
fn the_main_grids_fill_the_window() {
    let options = Options { tileset: 2, font: 0, map_zoom: 2, text_zoom: 1 };
    let layout = prepare_main_grids(
        &options,
        Size { w: 8, h: 8 },
        Size { w: 8, h: 14 },
        Size { w: 1000, h: 600 },
    );
    assert_eq!(
        layout.ui,
        GridLayout {
            cells: Size { w: 125, h: 5 },
            area_x: 0,
            area_y: 530,
            area_size: Size { w: 1000, h: 70 },
            centered: false,
            zoom: 1,
            clear_color: Some(BLACK),
        }
    );
    assert_eq!(
        layout.map,
        GridLayout {
            cells: Size { w: 63, h: 35 },
            area_x: 0,
            area_y: 0,
            area_size: Size { w: 1000, h: 530 },
            centered: true,
            zoom: 2,
            clear_color: None,
        }
    );
}

#[test]
fn the_main_grids_have_a_least_size_and_a_centre_cell() {
    let options = Options { tileset: 2, font: 0, map_zoom: 1, text_zoom: 2 };
    let tiny = prepare_main_grids(
        &options,
        Size { w: 16, h: 16 },
        Size { w: 8, h: 14 },
        Size { w: 100, h: 50 },
    );
    assert_eq!(tiny.ui.cells, Size { w: 40, h: 5 });
    assert_eq!(tiny.ui.area_y, 0);
    assert_eq!(tiny.ui.area_size, Size { w: 100, h: 140 });
    // Seventeen cells, one more to reach the edge, one more to be odd.
    assert_eq!(tiny.map.cells, Size { w: 19, h: 19 });
    assert_eq!(tiny.map.area_size, Size { w: 100, h: 1 });
    let even = prepare_main_grids(
        &options,
        Size { w: 16, h: 16 },
        Size { w: 8, h: 14 },
        Size { w: 320, h: 460 },
    );
    // Twenty cells fit evenly; one is added for a centre.
    assert_eq!(even.map.cells, Size { w: 21, h: 21 });
    let exact = prepare_main_grids(
        &options,
        Size { w: 16, h: 16 },
        Size { w: 8, h: 14 },
        Size { w: 336, h: 0 },
    );
    assert_eq!(exact.map.cells, Size { w: 21, h: 17 });
}

#[test]
fn the_status_line() {
    assert_eq!(
        draw_status_line(3, 27, 30, 60, 0),
        vec![
            DrawCmd::Text {
                x: 2,
                y: 0,
                text: " Depth: 3 ".to_string(),
                fg: yellow(),
                bg: BLACK
            },
            DrawCmd::Text {
                x: 13,
                y: 0,
                text: " HP: 27 / 30 ".to_string(),
                fg: yellow(),
                bg: BLACK
            },
            DrawCmd::Bar { x: 27, y: 0, len: 31, value: 27, max: 30, fg: red() },
        ]
    );
}

#[test]
fn the_newest_message_comes_first() {
    let mut log = Messages::new(4);
    for m in ["one", "two", "three"] {
        log.add(m.to_string());
    }
    let mark = |y: i32, fg: Color| DrawCmd::Glyphs { x: 0, y, len: 1, ch: '>', fg, bg: BLACK };
    let line = |y: i32, t: &str, fg: Color| DrawCmd::Text { x: 2, y, text: t.to_string(), fg,
        bg: BLACK };
    assert_eq!(
        draw_messages(&log, true, 1, 4),
        vec![
            mark(1, WHITE),
            line(1, "three", WHITE),
            mark(2, WHITE),
            line(2, "two", WHITE),
            mark(3, WHITE),
            line(3, "one", WHITE),
        ]
    );
    assert_eq!(
        draw_messages(&log, false, 2, 3),
        vec![mark(2, GRAY), line(2, "three", GRAY), mark(3, GRAY), line(3, "two", GRAY)]
    );
    assert!(draw_messages(&log, true, 3, 2).is_empty());
    assert_eq!(draw_messages(&log, true, 3, 3).len(), 2);
}

#[test]
fn the_interface_shows_the_status_the_prompt_and_the_log() {
    let mut state = open_state();
    let player = state.player;
    apply_damage(&mut state, player, player, 5);
    let plain = draw_ui(&state, 50, 5, None);
    assert_eq!(plain.len(), 6);
    assert_eq!(
        plain[0],
        DrawCmd::Glyphs { x: 0, y: 0, len: 50, ch: '\u{2500}', fg: WHITE, bg: BLACK }
    );
    assert_eq!(plain[1..4], draw_status_line(1, 27, 30, 50, 0)[..]);
    assert_eq!(plain[4], DrawCmd::Glyphs { x: 0, y: 1, len: 1, ch: '>', fg: WHITE, bg: BLACK });
    assert_eq!(plain[5], text(2, 1, "Player hits Player for 3 hp."));
    let asked = draw_ui(&state, 50, 5, Some("Pick target"));
    assert_eq!(asked.len(), 7);
    assert_eq!(asked[4], text(2, 1, "Pick target"));
    assert_eq!(asked[5], DrawCmd::Glyphs { x: 0, y: 2, len: 1, ch: '>', fg: GRAY, bg: BLACK });
    assert_eq!(
        asked[6],
        DrawCmd::Text {
            x: 2,
            y: 2,
            text: "Player hits Player for 3 hp.".to_string(),
            fg: GRAY,
            bg: BLACK
        }
    );
}

#[test]
fn the_options_menu_is_laid_out_and_drawn() {
    let options = Options { tileset: 2, font: 0, map_zoom: 2, text_zoom: 1 };
    let mut menu = OptionsMenuMode::new();
    let layout = menu.prepare_grids(&options, Size { w: 640, h: 480 });
    assert_eq!(
        layout,
        GridLayout {
            cells: Size { w: 24, h: 8 },
            area_x: 0,
            area_y: 0,
            area_size: Size { w: 640, h: 480 },
            centered: true,
            zoom: 1,
            clear_color: None,
        }
    );
    let shade = |x: i32, y: i32| DrawCmd::Shade { x, y, len: 4, bg: SELECTED };
    let top = |tint: Color| {
        vec![
            DrawCmd::Tint { color: tint },
            DrawCmd::Frame { x: 0, y: 0, w: 24, h: 8, fg: WHITE, bg: BLACK },
            text(2, 0, "< Options >"),
        ]
    };
    let mut expected = top(WHITE);
    expected.extend(vec![
        text(2, 2, " Map zoom:"),
        text(13, 2, " 1x "),
        text(18, 2, "[2x]"),
        shade(18, 2),
        text(2, 3, "Text zoom:"),
        text(13, 3, "[1x]"),
        text(18, 3, " 2x "),
        text(2, 5, "[ Quit ]"),
    ]);
    assert_eq!(menu.draw(&options, 24, 8, true), expected);
    let mut options = options;
    menu.update(&mut options,
        Some(ruggle::gamekey::InputEvent::Press(ruggle::gamekey::KeyCode::Down)), &None);
    let mut expected = top(GRAY);
    expected.extend(vec![
        text(2, 2, " Map zoom:"),
        text(13, 2, " 1x "),
        text(18, 2, "[2x]"),
        text(2, 3, "Text zoom:"),
        text(13, 3, "[1x]"),
        text(18, 3, " 2x "),
        shade(13, 3),
        text(2, 5, "[ Quit ]"),
    ]);
    assert_eq!(menu.draw(&options, 24, 8, false), expected);
    menu.update(&mut options,
        Some(ruggle::gamekey::InputEvent::Press(ruggle::gamekey::KeyCode::Down)), &None);
    let drawn = menu.draw(&options, 24, 8, true);
    assert_eq!(drawn.len(), 10);
    assert_eq!(
        drawn[9],
        DrawCmd::Text { x: 2, y: 5, text: "[ Quit ]".to_string(), fg: WHITE, bg: SELECTED }
    );
    options.map_zoom = 3;
    assert_eq!(menu.draw(&options, 24, 8, true)[4], text(13, 2, " 1x "));
    assert_eq!(menu.draw(&options, 24, 8, true)[5], text(18, 2, " 2x "));
}

fn item(state: &mut GameState, name: &str) -> Entity {
    let e = state.world.create();
    state.world.set_tags(e, Tags { player: false, monster: false, item: true, blocks_tile: false });
    state.world.set_name(e, Some(name.to_string()));
    state.world.set_renderable(
        e,
        Some(Renderable { ch: ')', fg: Color { r: 1, g: 2, b: 3 }, bg: Color { r: 4, g: 5,
            b: 6 } }),
    );
    e
}

#[test]
fn the_equipment_menu_is_laid_out_and_drawn() {
    let mut state = open_state();
    let dagger = item(&mut state, "Dagger");
    let mut menu = EquipmentActionMode::new(&state, dagger);
    let layout = menu.prepare_grids(&state.options, Size { w: 640, h: 480 });
    assert_eq!(layout.cells, Size { w: 16, h: 10 });
    assert!(layout.centered);
    assert_eq!(layout.zoom, 1);
    let colored = |x: i32, y: i32, t: &str, bg: Color| DrawCmd::Text { x, y, text: t.to_string(),
        fg: WHITE, bg };
    assert_eq!(
        menu.draw(&state, 16, 10, true),
        vec![
            DrawCmd::Tint { color: WHITE },
            DrawCmd::Frame { x: 0, y: 0, w: 16, h: 10, fg: WHITE, bg: BLACK },
            DrawCmd::Glyphs {
                x: 2,
                y: 2,
                len: 1,
                ch: ')',
                fg: Color { r: 1, g: 2, b: 3 },
                bg: Color { r: 4, g: 5, b: 6 }
            },
            text(4, 2, "Dagger"),
            colored(4, 4, "[ Remove ]", SELECTED),
            colored(4, 5, "[ Drop ]", BLACK),
            colored(4, 7, "[ Cancel ]", BLACK),
        ]
    );
    menu.update(Some(ruggle::gamekey::InputEvent::Press(ruggle::gamekey::KeyCode::Up)));
    let drawn = menu.draw(&state, 16, 10, false);
    assert_eq!(drawn[0], DrawCmd::Tint { color: GRAY });
    assert_eq!(drawn[4], colored(4, 4, "[ Remove ]", BLACK));
    assert_eq!(drawn[5], colored(4, 5, "[ Drop ]", BLACK));
    assert_eq!(drawn[6], colored(4, 7, "[ Cancel ]", SELECTED));
}

#[test]
fn targeting_highlights_what_can_be_hit() {
    let mut state = open_state();
    let player = state.player;
    ruggle::movement::refresh_fov(&mut state, player);
    let mut mode = TargetMode::new(&state, "a rock".to_string(), 1, 0, false);
    mode.update(Some(ruggle::gamekey::InputEvent::Press(ruggle::gamekey::KeyCode::L)), &None);
    let drawn = mode.draw(&state, (21, 21), (40, 5), true);
    let scene = ruggle::render::draw_scene(&state, 21, 21, true);
    let shade = |x: i32, y: i32, bg: Color| DrawCmd::Shade { x, y, len: 1, bg };
    let mut expected = Vec::new();
    // The player is shown in the middle: tile (10, 10) in cell (10, 10).
    for y in 9..=11 {
        for x in 9..=11 {
            expected.push(shade(x, y, blue()));
        }
    }
    expected.push(shade(11, 10, purple()));
    expected.push(shade(11, 10, magenta()));
    assert_eq!(drawn.map.len(), scene.len() + 11);
    assert_eq!(drawn.map[..scene.len()], scene[..]);
    assert_eq!(drawn.map[scene.len()..], expected[..]);
    assert_eq!(drawn.ui.len(), 5);
    assert_eq!(drawn.ui[4], text(2, 1, "Pick target for a rock: Floor"));
    mode.update(Some(ruggle::gamekey::InputEvent::Press(ruggle::gamekey::KeyCode::H)), &None);
    let on_self = mode.draw(&state, (21, 21), (40, 5), false);
    assert_eq!(on_self.map[scene.len() + 9], shade(10, 10, Color { r: 64, g: 0, b: 64 }));
    assert_eq!(on_self.ui[4], text(2, 1, "Pick target for a rock: Player"));
    let mut far = TargetMode::new(&state, "a rock".to_string(), 9, 0, false);
    for _ in 0..9 {
        far.update(Some(ruggle::gamekey::InputEvent::Press(ruggle::gamekey::KeyCode::L)), &None);
    }
    let drawn = far.draw(&state, (21, 21), (40, 5), true);
    assert_eq!(drawn.ui[4], text(2, 1, "Pick target for a rock: Out of range"));
}

#[test]
fn the_dialog_is_laid_out_and_drawn() {
    let options = Options { tileset: 2, font: 0, map_zoom: 2, text_zoom: 2 };
    let mut dialog =
        ruggle::modes::yes_no_dialog::YesNoDialogMode::new("Really exit Ruggle?".to_string(),
            false);
    let layout = dialog.prepare_grids(&options, Size { w: 640, h: 480 });
    assert_eq!(layout.cells, Size { w: 23, h: 7 });
    assert_eq!(layout.zoom, 2);
    assert!(layout.centered);
    let short = ruggle::modes::yes_no_dialog::YesNoDialogMode::new("Sure?".to_string(), true);
    assert_eq!(short.prepare_grids(&options, Size { w: 640, h: 480 }).cells, Size { w: 19, h: 7 });
    let colored = |x: i32, t: &str, bg: Color| DrawCmd::Text { x, y: 4, text: t.to_string(),
        fg: WHITE, bg };
    assert_eq!(
        dialog.draw(23, 7, true),
        vec![
            DrawCmd::Tint { color: WHITE },
            DrawCmd::Frame { x: 0, y: 0, w: 23, h: 7, fg: WHITE, bg: BLACK },
            text(2, 2, "Really exit Ruggle?"),
            colored(2, "[ Yes ]", BLACK),
            colored(11, "[ No ]", SELECTED),
        ]
    );
    dialog.update(Some(ruggle::gamekey::InputEvent::Press(ruggle::gamekey::KeyCode::Left)));
    let drawn = dialog.draw(23, 7, false);
    assert_eq!(drawn[0], DrawCmd::Tint { color: GRAY });
    assert_eq!(drawn[3], colored(2, "[ Yes ]", SELECTED));
    assert_eq!(drawn[4], colored(11, "[ No ]", BLACK));
}

#[test]
fn the_last_screen_is_laid_out_and_drawn() {
    let options = Options { tileset: 2, font: 0, map_zoom: 2, text_zoom: 1 };
    let screen = ruggle::modes::game_over::GameOverMode::new();
    assert_eq!(screen.prepare_grids(&options, Size { w: 640, h: 480 }).cells, Size { w: 26, h: 7 });
    assert_eq!(
        screen.draw(26, 7, true),
        vec![
            DrawCmd::Tint { color: WHITE },
            DrawCmd::Frame { x: 0, y: 0, w: 26, h: 7, fg: WHITE, bg: BLACK },
            DrawCmd::Text {
                x: 2,
                y: 2,
                text: "You have died.".to_string(),
                fg: red(),
                bg: BLACK
            },
            text(2, 4, "Press Return to leave."),
        ]
    );
}

#[test]
fn the_dungeon_draws_the_map_and_the_interface() {
    let mut state = open_state();
    let mode = ruggle::modes::dungeon::DungeonMode::new(&mut state);
    assert!(state.world.sees(state.player, 10, 10));
    let drawn = mode.draw(&state, (21, 21), (50, 5), true);
    assert_eq!(drawn.ui, draw_ui(&state, 50, 5, None));
    assert_eq!(drawn.ui.len(), 4);
    assert_eq!(drawn.map, ruggle::render::draw_scene(&state, 21, 21, true));
}
