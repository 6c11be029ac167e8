use rand::SeedableRng;
use rand_pcg::Pcg32;
use ruggle::components::{Color, Entity, Renderable, Tags};
use ruggle::gamekey::{direction, from_keycode, GameKey, InputEvent, KeyCode};
use ruggle::map::Tile;
use ruggle::modes::dungeon::{DungeonMode, DungeonModeResult};
use ruggle::modes::equipment_action::{
    EquipmentAction, EquipmentActionMode, EquipmentActionModeResult, SubSection,
};
use ruggle::modes::game_over::GameOverModeResult;
use ruggle::modes::options_menu::{OptionsMenuMode, OptionsMenuModeResult, Selection};
use ruggle::modes::target::{describe_tile, TargetMode, TargetModeResult};
use ruggle::modes::yes_no_dialog::{YesNoDialogMode, YesNoDialogModeResult};
use ruggle::modes::{Mode, ModeControl, ModeResult, ModeStack, ModeUpdate, RunControl};
use ruggle::movement::{move_entity, refresh_fov};
use ruggle::rng::RuggleRng;
use ruggle::spawn::MonsterKind;
use ruggle::spawn::spawn_kind_at;
use ruggle::state::GameState;
use ruggle::ui::Options;

fn open_state(w: i32, h: i32) -> GameState {
    let options = Options { tileset: 2, font: 0, map_zoom: 2, text_zoom: 1 };
    let mut state = GameState::new(w, h, 4, options, RuggleRng(Pcg32::seed_from_u64(3)));
    for y in 0..h {
        for x in 0..w {
            state.map.set_tile(x, y, Tile::Floor);
        }
    }
    let player = state.player;
    assert!(move_entity(&mut state, player, (10, 10)));
    state
}

fn press(key: KeyCode) -> Option<InputEvent> {
    Some(InputEvent::Press(key))
}

fn is_stay(r: &(ModeControl, ModeUpdate)) -> bool {
    matches!(r.0, ModeControl::Stay) && r.1 == ModeUpdate::WaitForEvent
}

fn popped(r: &(ModeControl, ModeUpdate)) -> Option<ModeResult> {
    match &r.0 {
        ModeControl::Pop(result) if r.1 == ModeUpdate::Immediate => Some(*result),
        _ => None,
    }
}

fn pushed_prompt(r: &(ModeControl, ModeUpdate)) -> Option<String> {
    match &r.0 {
        ModeControl::Push(Mode::YesNoDialog(d)) if r.1 == ModeUpdate::Immediate => {
            assert!(!d.yes_selected);
            Some(d.prompt.clone())
        }
        _ => None,
    }
}

#[test]
fn keys_have_their_meaning() {
    assert_eq!(from_keycode(KeyCode::K), GameKey::Up);
    assert_eq!(from_keycode(KeyCode::NumPad8), GameKey::Up);
    assert_eq!(from_keycode(KeyCode::Up), GameKey::Up);
    assert_eq!(from_keycode(KeyCode::J), GameKey::Down);
    assert_eq!(from_keycode(KeyCode::H), GameKey::Left);
    assert_eq!(from_keycode(KeyCode::NumPad6), GameKey::Right);
    assert_eq!(from_keycode(KeyCode::Y), GameKey::UpLeft);
    assert_eq!(from_keycode(KeyCode::NumPad9), GameKey::UpRight);
    assert_eq!(from_keycode(KeyCode::B), GameKey::DownLeft);
    assert_eq!(from_keycode(KeyCode::N), GameKey::DownRight);
    assert_eq!(from_keycode(KeyCode::NumPad5), GameKey::Wait);
    assert_eq!(from_keycode(KeyCode::Return), GameKey::Confirm);
    assert_eq!(from_keycode(KeyCode::Escape), GameKey::Cancel);
    assert_eq!(from_keycode(KeyCode::Other), GameKey::Unmapped);
    assert_eq!(direction(GameKey::UpLeft), Some((-1, -1)));
    assert_eq!(direction(GameKey::Down), Some((0, 1)));
    assert_eq!(direction(GameKey::Right), Some((1, 0)));
    assert_eq!(direction(GameKey::Confirm), None);
}

#[test]
fn the_options_menu_goes_round_its_entries() {
    let mut options = Options { tileset: 2, font: 0, map_zoom: 2, text_zoom: 1 };
    let mut menu = OptionsMenuMode::new();
    assert_eq!(menu.selection, Selection::MapZoom);
    assert!(is_stay(&menu.update(&mut options, press(KeyCode::Down), &None)));
    assert_eq!(menu.selection, Selection::TextZoom);
    assert!(is_stay(&menu.update(&mut options, press(KeyCode::Down), &None)));
    assert_eq!(menu.selection, Selection::Quit);
    assert!(is_stay(&menu.update(&mut options, press(KeyCode::Down), &None)));
    assert_eq!(menu.selection, Selection::MapZoom);
    assert!(is_stay(&menu.update(&mut options, press(KeyCode::Up), &None)));
    assert_eq!(menu.selection, Selection::Quit);
    assert!(is_stay(&menu.update(&mut options, press(KeyCode::Up), &None)));
    assert_eq!(menu.selection, Selection::TextZoom);
    assert!(is_stay(&menu.update(&mut options, None, &None)));
    assert!(is_stay(&menu.update(&mut options, Some(InputEvent::AppQuit), &None)));
    assert_eq!(menu.selection, Selection::TextZoom);
    assert_eq!(options, Options { tileset: 2, font: 0, map_zoom: 2, text_zoom: 1 });
}

#[test]
fn the_options_menu_sets_the_zooms() {
    let mut options = Options { tileset: 2, font: 0, map_zoom: 2, text_zoom: 1 };
    let mut menu = OptionsMenuMode::new();
    let r = menu.update(&mut options, press(KeyCode::Left), &None);
    assert!(matches!(r.0, ModeControl::Stay));
    assert_eq!(r.1, ModeUpdate::Immediate);
    assert_eq!(options.map_zoom, 1);
    assert_eq!(options.text_zoom, 1);
    menu.update(&mut options, press(KeyCode::Right), &None);
    assert_eq!(options.map_zoom, 2);
    menu.update(&mut options, press(KeyCode::Down), &None);
    let r = menu.update(&mut options, press(KeyCode::Right), &None);
    assert_eq!(r.1, ModeUpdate::Immediate);
    assert_eq!(options.text_zoom, 2);
    assert_eq!(options.map_zoom, 2);
    menu.update(&mut options, press(KeyCode::Left), &None);
    assert_eq!(options.text_zoom, 1);
    menu.update(&mut options, press(KeyCode::Down), &None);
    assert!(is_stay(&menu.update(&mut options, press(KeyCode::Left), &None)));
    assert_eq!(options, Options { tileset: 2, font: 0, map_zoom: 2, text_zoom: 1 });
}

#[test]
fn the_options_menu_asks_before_quitting() {
    let mut options = Options { tileset: 2, font: 0, map_zoom: 2, text_zoom: 1 };
    let mut menu = OptionsMenuMode::new();
    assert!(is_stay(&menu.update(&mut options, press(KeyCode::Return), &None)));
    menu.update(&mut options, press(KeyCode::Up), &None);
    let r = menu.update(&mut options, press(KeyCode::Return), &None);
    assert_eq!(pushed_prompt(&r), Some("Really exit Ruggle?".to_string()));
    let no = Some(ModeResult::YesNoDialog(YesNoDialogModeResult::No));
    assert!(is_stay(&menu.update(&mut options, press(KeyCode::Escape), &no)));
    assert_eq!(menu.selection, Selection::Quit);
    let yes = Some(ModeResult::YesNoDialog(YesNoDialogModeResult::Yes));
    let r = menu.update(&mut options, None, &yes);
    assert_eq!(popped(&r), Some(ModeResult::OptionsMenu(OptionsMenuModeResult::ReallyQuit)));
    let r = menu.update(&mut options, press(KeyCode::Escape), &None);
    assert_eq!(popped(&r), Some(ModeResult::OptionsMenu(OptionsMenuModeResult::Closed)));
}

#[test]
fn the_dialog_answers() {
    let mut dialog = YesNoDialogMode::new("Sure?".to_string(), false);
    assert!(is_stay(&dialog.update(None)));
    assert!(is_stay(&dialog.update(press(KeyCode::Up))));
    let r = dialog.update(press(KeyCode::Return));
    assert_eq!(popped(&r), Some(ModeResult::YesNoDialog(YesNoDialogModeResult::No)));
    assert!(is_stay(&dialog.update(press(KeyCode::Left))));
    assert!(dialog.yes_selected);
    let r = dialog.update(press(KeyCode::Return));
    assert_eq!(popped(&r), Some(ModeResult::YesNoDialog(YesNoDialogModeResult::Yes)));
    let r = dialog.update(press(KeyCode::Escape));
    assert_eq!(popped(&r), Some(ModeResult::YesNoDialog(YesNoDialogModeResult::No)));
    assert!(is_stay(&dialog.update(press(KeyCode::Right))));
    assert!(!dialog.yes_selected);
    assert_eq!(dialog.prompt, "Sure?");
}

fn item(state: &mut GameState, name: &str) -> Entity {
    let e = state.world.create();
    state.world.set_tags(e, Tags { player: false, monster: false, item: true, blocks_tile: false });
    state.world.set_name(e, Some(name.to_string()));
    state.world.set_renderable(
        e,
        Some(Renderable {
            ch: ')',
            fg: Color { r: 1, g: 2, b: 3 },
            bg: Color { r: 0, g: 0, b: 0 },
        }),
    );
    e
}

#[test]
fn equipment_action_names() {
    assert_eq!(EquipmentAction::RemoveEquipment.name(), "[ Remove ]");
    assert_eq!(EquipmentAction::DropEquipment.name(), "[ Drop ]");
}

#[test]
fn the_equipment_menu_is_as_wide_as_its_widest_line() {
    let mut state = open_state(20, 20);
    let short = item(&mut state, "Dagger");
    let long = item(&mut state, "Sword of a Thousand Truths");
    let menu = EquipmentActionMode::new(&state, short);
    assert_eq!(menu.inner_width, 12);
    assert_eq!(menu.item_id, short);
    assert_eq!(
        menu.actions,
        vec![EquipmentAction::RemoveEquipment, EquipmentAction::DropEquipment]
    );
    assert_eq!(menu.subsection, SubSection::Actions);
    assert_eq!(menu.selection, 0);
    assert_eq!(EquipmentActionMode::new(&state, long).inner_width, 28);
}

#[test]
fn the_equipment_menu_goes_round_and_confirms() {
    let mut state = open_state(20, 20);
    let dagger = item(&mut state, "Dagger");
    let mut menu = EquipmentActionMode::new(&state, dagger);
    let r = menu.confirm_action();
    assert_eq!(
        popped(&r),
        Some(ModeResult::EquipmentAction(EquipmentActionModeResult::RemoveEquipment(dagger)))
    );
    assert!(is_stay(&menu.update(press(KeyCode::Down))));
    assert_eq!((menu.subsection, menu.selection), (SubSection::Actions, 1));
    let r = menu.update(press(KeyCode::Return));
    assert_eq!(
        popped(&r),
        Some(ModeResult::EquipmentAction(EquipmentActionModeResult::DropEquipment(dagger)))
    );
    assert!(is_stay(&menu.update(press(KeyCode::Down))));
    assert_eq!(menu.subsection, SubSection::Cancel);
    let r = menu.update(press(KeyCode::Return));
    assert_eq!(
        popped(&r),
        Some(ModeResult::EquipmentAction(EquipmentActionModeResult::Cancelled))
    );
    assert!(is_stay(&menu.update(press(KeyCode::Down))));
    assert_eq!((menu.subsection, menu.selection), (SubSection::Actions, 0));
    assert!(is_stay(&menu.update(press(KeyCode::Up))));
    assert_eq!(menu.subsection, SubSection::Cancel);
    assert!(is_stay(&menu.update(press(KeyCode::Up))));
    assert_eq!((menu.subsection, menu.selection), (SubSection::Actions, 1));
    assert!(is_stay(&menu.update(press(KeyCode::Up))));
    assert_eq!((menu.subsection, menu.selection), (SubSection::Actions, 0));
    assert!(is_stay(&menu.update(press(KeyCode::Left))));
    assert!(is_stay(&menu.update(None)));
    let r = menu.update(press(KeyCode::Escape));
    assert_eq!(
        popped(&r),
        Some(ModeResult::EquipmentAction(EquipmentActionModeResult::Cancelled))
    );
    let r = menu.update(Some(InputEvent::AppQuit));
    assert_eq!(popped(&r), Some(ModeResult::EquipmentAction(EquipmentActionModeResult::AppQuit)));
    assert_eq!(menu.inner_width, 12);
}

#[test]
fn targeting_starts_on_the_closest_monster() {
    let mut state = open_state(30, 30);
    let player = state.player;
    refresh_fov(&mut state, player);
    let lonely = TargetMode::new(&state, "a test".to_string(), 5, 0, true);
    assert_eq!(lonely.center, (10, 10));
    assert_eq!(lonely.cursor, (10, 10));
    assert_eq!((lonely.range, lonely.radius, lonely.warn_self), (5, 0, true));
    assert_eq!(lonely.for_what, "a test");
    spawn_kind_at(&mut state, MonsterKind::Orc, (14, 10));
    spawn_kind_at(&mut state, MonsterKind::Goblin, (10, 13));
    spawn_kind_at(&mut state, MonsterKind::Goblin, (7, 10));
    spawn_kind_at(&mut state, MonsterKind::Goblin, (10, 7));
    spawn_kind_at(&mut state, MonsterKind::Goblin, (11, 16));
    let mode = TargetMode::new(&state, "a test".to_string(), 5, 0, true);
    // Three monsters are three tiles away; the first in reading order wins.
    assert_eq!(mode.cursor, (10, 7));
    assert!(mode.valid.get(10, 15));
    assert!(mode.valid.get(13, 14));
    assert!(!mode.valid.get(14, 14));
    assert!(!mode.valid.get(10, 16));
    let short = TargetMode::new(&state, "a test".to_string(), 2, 0, true);
    assert_eq!(short.cursor, (10, 10));
    assert!(short.valid.get(11, 12));
    assert!(!short.valid.get(12, 12));
}

#[test]
fn the_cursor_stays_in_its_square() {
    let mut state = open_state(30, 30);
    let player = state.player;
    refresh_fov(&mut state, player);
    let mut mode = TargetMode::new(&state, "a test".to_string(), 2, 1, false);
    assert!(is_stay(&mode.update(press(KeyCode::H), &None)));
    assert_eq!(mode.cursor, (9, 10));
    assert!(is_stay(&mode.update(press(KeyCode::Left), &None)));
    assert_eq!(mode.cursor, (8, 10));
    assert!(is_stay(&mode.update(press(KeyCode::NumPad4), &None)));
    assert_eq!(mode.cursor, (8, 10));
    assert!(is_stay(&mode.update(press(KeyCode::Y), &None)));
    assert_eq!(mode.cursor, (8, 10));
    assert!(is_stay(&mode.update(press(KeyCode::K), &None)));
    assert_eq!(mode.cursor, (8, 9));
    assert!(is_stay(&mode.update(press(KeyCode::U), &None)));
    assert_eq!(mode.cursor, (9, 8));
    assert!(is_stay(&mode.update(press(KeyCode::U), &None)));
    assert_eq!(mode.cursor, (9, 8));
    assert!(is_stay(&mode.update(press(KeyCode::N), &None)));
    assert_eq!(mode.cursor, (10, 9));
    assert!(is_stay(&mode.update(press(KeyCode::J), &None)));
    assert!(is_stay(&mode.update(press(KeyCode::B), &None)));
    assert_eq!(mode.cursor, (9, 11));
    assert!(is_stay(&mode.update(press(KeyCode::L), &None)));
    assert_eq!(mode.cursor, (10, 11));
    assert!(is_stay(&mode.update(press(KeyCode::Other), &None)));
    assert!(is_stay(&mode.update(None, &None)));
    assert_eq!(mode.cursor, (10, 11));
}

#[test]
fn targeting_picks_warns_and_cancels() {
    let mut state = open_state(30, 30);
    let player = state.player;
    refresh_fov(&mut state, player);
    let mut mode = TargetMode::new(&state, "a test".to_string(), 3, 1, true);
    let r = mode.update(press(KeyCode::Return), &None);
    assert_eq!(pushed_prompt(&r), Some("Really target yourself?".to_string()));
    mode.update(press(KeyCode::L), &None);
    let r = mode.update(press(KeyCode::Return), &None);
    assert_eq!(pushed_prompt(&r), Some("Really include yourself?".to_string()));
    let no = Some(ModeResult::YesNoDialog(YesNoDialogModeResult::No));
    assert!(is_stay(&mode.update(press(KeyCode::L), &no)));
    assert_eq!(mode.cursor, (11, 10));
    let yes = Some(ModeResult::YesNoDialog(YesNoDialogModeResult::Yes));
    let r = mode.update(None, &yes);
    assert_eq!(popped(&r), Some(ModeResult::Target(TargetModeResult::Target { x: 11, y: 10 })));
    mode.update(press(KeyCode::L), &None);
    let r = mode.update(press(KeyCode::Return), &None);
    assert_eq!(popped(&r), Some(ModeResult::Target(TargetModeResult::Target { x: 12, y: 10 })));
    // The corner of the square is out of range: it cannot be picked.
    mode.update(press(KeyCode::U), &None);
    mode.update(press(KeyCode::K), &None);
    mode.update(press(KeyCode::K), &None);
    mode.update(press(KeyCode::K), &None);
    assert_eq!(mode.cursor, (13, 7));
    assert!(is_stay(&mode.update(press(KeyCode::Return), &None)));
    let r = mode.update(press(KeyCode::Escape), &None);
    assert_eq!(popped(&r), Some(ModeResult::Target(TargetModeResult::Cancelled)));
    let mut careless = TargetMode::new(&state, "a test".to_string(), 3, 1, false);
    let r = careless.update(press(KeyCode::Return), &None);
    assert_eq!(popped(&r), Some(ModeResult::Target(TargetModeResult::Target { x: 10, y: 10 })));
}

#[test]
fn a_tile_is_described_by_what_stands_on_it() {
    let mut state = open_state(30, 30);
    assert_eq!(describe_tile(&state, 10, 10), "Player");
    assert_eq!(describe_tile(&state, 3, 3), "Floor");
    state.map.set_tile(3, 3, Tile::DownStairs);
    assert_eq!(describe_tile(&state, 3, 3), "Down stairs");
    assert_eq!(describe_tile(&state, -1, 3), "Wall");
    let dagger = item(&mut state, "Dagger");
    state.world.set_position(dagger, Some(ruggle::components::Position { x: 3, y: 3 }));
    state.map.place_entity(dagger, (3, 3), false);
    assert_eq!(describe_tile(&state, 3, 3), "Dagger");
    let shield = item(&mut state, "Shield");
    state.world.set_position(shield, Some(ruggle::components::Position { x: 3, y: 3 }));
    state.map.place_entity(shield, (3, 3), false);
    assert_eq!(describe_tile(&state, 3, 3), "2 items");
    spawn_kind_at(&mut state, MonsterKind::Orc, (3, 3));
    assert_eq!(describe_tile(&state, 3, 3), "Orc");
    let potion = item(&mut state, "Potion");
    state.world.set_position(potion, Some(ruggle::components::Position { x: 10, y: 10 }));
    state.map.place_entity(potion, (10, 10), false);
    assert_eq!(describe_tile(&state, 10, 10), "Player");
}

#[test]
fn the_stack_returns_to_the_parent_as_it_was() {
    let mut state = open_state(30, 30);
    let player = state.player;
    refresh_fov(&mut state, player);
    let mut target = TargetMode::new(&state, "a test".to_string(), 3, 1, true);
    target.update(press(KeyCode::L), &None);
    let mut modes = Vec::new();
    modes.push(Mode::Dungeon(DungeonMode::new(&mut state)));
    modes.push(Mode::Target(target));
    let mut stack = ModeStack::new(modes);
    assert_eq!(stack.update(&mut state, press(KeyCode::Return)), RunControl::WaitForEvent);
    assert_eq!(stack.stack.len(), 3);
    assert!(matches!(stack.stack[2], Mode::YesNoDialog(_)));
    assert_eq!(stack.update(&mut state, press(KeyCode::Return)), RunControl::WaitForEvent);
    assert_eq!(stack.stack.len(), 2);
    match &stack.stack[1] {
        Mode::Target(t) => {
            assert_eq!(t.cursor, (11, 10));
            assert_eq!(t.center, (10, 10));
            assert_eq!(t.for_what, "a test");
            assert_eq!((t.range, t.radius, t.warn_self), (3, 1, true));
        }
        _ => panic!("the parent is gone"),
    }
    assert!(matches!(stack.stack[0], Mode::Dungeon(_)));
    assert!(stack.pop_result.is_none());
}

#[test]
fn the_stack_runs_the_menu_and_quits_with_its_last_mode() {
    let mut state = open_state(30, 30);
    let mut modes = Vec::new();
    modes.push(Mode::Dungeon(DungeonMode::new(&mut state)));
    let mut stack = ModeStack::new(modes);
    assert!(!stack.is_empty());
    assert_eq!(stack.update(&mut state, None), RunControl::WaitForEvent);
    assert_eq!(stack.stack.len(), 1);
    assert_eq!(stack.update(&mut state, press(KeyCode::Escape)), RunControl::WaitForEvent);
    assert_eq!(stack.stack.len(), 2);
    assert_eq!(stack.update(&mut state, press(KeyCode::Down)), RunControl::WaitForEvent);
    assert_eq!(stack.update(&mut state, press(KeyCode::Right)), RunControl::WaitForEvent);
    assert_eq!(state.options.text_zoom, 2);
    match &stack.stack[1] {
        Mode::OptionsMenu(menu) => assert_eq!(menu.selection, Selection::TextZoom),
        _ => panic!("the menu is not on top"),
    }
    assert_eq!(stack.update(&mut state, press(KeyCode::Escape)), RunControl::WaitForEvent);
    assert_eq!(stack.stack.len(), 1);
    assert!(matches!(stack.stack[0], Mode::Dungeon(_)));
    // Quit for good: menu, quit entry, confirm, yes, confirm.
    stack.update(&mut state, press(KeyCode::Escape));
    stack.update(&mut state, press(KeyCode::Up));
    assert_eq!(stack.update(&mut state, press(KeyCode::Return)), RunControl::WaitForEvent);
    assert_eq!(stack.stack.len(), 3);
    assert_eq!(stack.first_drawn(), 0);
    stack.update(&mut state, press(KeyCode::Left));
    assert_eq!(stack.update(&mut state, press(KeyCode::Return)), RunControl::Quit);
    assert!(stack.is_empty());
    assert_eq!(stack.update(&mut state, press(KeyCode::Return)), RunControl::Quit);
}

#[test]
fn a_no_of_the_dialog_goes_back_to_the_menu() {
    let mut state = open_state(30, 30);
    let mut stack = ModeStack::new(vec![Mode::Dungeon(DungeonMode::new(&mut state))]);
    stack.update(&mut state, press(KeyCode::Escape));
    stack.update(&mut state, press(KeyCode::Up));
    assert_eq!(stack.update(&mut state, press(KeyCode::Return)), RunControl::WaitForEvent);
    assert_eq!(stack.stack.len(), 3);
    assert!(matches!(stack.stack[2], Mode::YesNoDialog(_)));
    // The dialog starts on no: confirming it hands the answer to the menu,
    // which stays and waits.
    assert_eq!(stack.update(&mut state, press(KeyCode::Return)), RunControl::WaitForEvent);
    assert_eq!(stack.stack.len(), 2);
    assert!(stack.pop_result.is_none());
    match &stack.stack[1] {
        Mode::OptionsMenu(menu) => assert_eq!(menu.selection, Selection::Quit),
        _ => panic!("the menu is not on top"),
    }
    assert_eq!(stack.update(&mut state, press(KeyCode::Down)), RunControl::WaitForEvent);
    match &stack.stack[1] {
        Mode::OptionsMenu(menu) => assert_eq!(menu.selection, Selection::MapZoom),
        _ => panic!("the menu is not on top"),
    }
}

#[test]
fn targeting_starts_the_same_when_it_starts_again() {
    let mut state = open_state(30, 30);
    let player = state.player;
    refresh_fov(&mut state, player);
    spawn_kind_at(&mut state, MonsterKind::Orc, (12, 11));
    spawn_kind_at(&mut state, MonsterKind::Goblin, (9, 12));
    let a = TargetMode::new(&state, "a test".to_string(), 4, 2, true);
    let b = TargetMode::new(&state, "a test".to_string(), 4, 2, true);
    assert_eq!(a.center, b.center);
    assert_eq!(a.cursor, b.cursor);
    assert_eq!((a.range, a.radius), (b.range, b.radius));
    assert_eq!((a.valid.width, a.valid.height), (b.valid.width, b.valid.height));
    assert_eq!(a.valid.bits, b.valid.bits);
    assert_eq!(a.valid.tiles(), b.valid.tiles());
    assert_eq!(a.cursor, (12, 11));
    assert!(!a.valid.tiles().is_empty());
}

#[test]
fn the_stack_applies_what_it_is_asked() {
    let mut state = open_state(30, 30);
    let mut stack = ModeStack::new(vec![Mode::Dungeon(DungeonMode::new(&mut state))]);
    stack.apply(ModeControl::Push(Mode::OptionsMenu(OptionsMenuMode::new())));
    assert_eq!(stack.stack.len(), 2);
    assert!(stack.pop_result.is_none());
    stack.apply(ModeControl::Stay);
    assert_eq!(stack.stack.len(), 2);
    stack.apply(ModeControl::Replace(Mode::YesNoDialog(YesNoDialogMode::new("?".to_string(),
        true))));
    assert_eq!(stack.stack.len(), 2);
    assert!(matches!(stack.stack[1], Mode::YesNoDialog(_)));
    assert!(matches!(stack.stack[0], Mode::Dungeon(_)));
    let result = ModeResult::YesNoDialog(YesNoDialogModeResult::Yes);
    stack.apply(ModeControl::Pop(result));
    assert_eq!(stack.stack.len(), 1);
    assert_eq!(stack.pop_result, Some(result));
    stack.apply(ModeControl::Pop(ModeResult::Dungeon(DungeonModeResult::Done)));
    assert!(stack.is_empty());
    stack.apply(ModeControl::Push(Mode::OptionsMenu(OptionsMenuMode::new())));
    assert!(stack.is_empty());
}

#[test]
fn drawing_stops_at_the_first_mode_that_covers_the_rest() {
    let mut state = open_state(30, 30);
    let player = state.player;
    refresh_fov(&mut state, player);
    let mut stack = ModeStack::new(Vec::new());
    assert_eq!(stack.first_drawn(), 0);
    stack.stack.push(Mode::Dungeon(DungeonMode::new(&mut state)));
    assert_eq!(stack.first_drawn(), 0);
    stack.stack.push(Mode::OptionsMenu(OptionsMenuMode::new()));
    assert_eq!(stack.first_drawn(), 0);
    stack.stack.push(Mode::Target(TargetMode::new(&state, "a test".to_string(), 3, 1, true)));
    assert_eq!(stack.first_drawn(), 2);
    stack.stack.push(Mode::YesNoDialog(YesNoDialogMode::new("?".to_string(), true)));
    assert_eq!(stack.first_drawn(), 2);
    assert!(stack.stack[3].transparent());
    assert!(!stack.stack[2].transparent());
}

#[test]
fn the_dungeon_plays_turns_and_ends_with_the_player() {
    let mut state = open_state(30, 30);
    let player = state.player;
    let mut stack = ModeStack::new(vec![Mode::Dungeon(DungeonMode::new(&mut state))]);
    assert_eq!(stack.update(&mut state, press(KeyCode::L)), RunControl::WaitForEvent);
    assert_eq!(state.world.position(player).unwrap().x, 11);
    assert_eq!(stack.update(&mut state, press(KeyCode::Y)), RunControl::WaitForEvent);
    let p = state.world.position(player).unwrap();
    assert_eq!((p.x, p.y), (10, 9));
    let orc = spawn_kind_at(&mut state, MonsterKind::Orc, (10, 8));
    state.world.set_stats(
        player,
        Some(ruggle::components::CombatStats { max_hp: 30, hp: 2, defense: 2, power: 5 }),
    );
    assert_eq!(stack.update(&mut state, press(KeyCode::Period)), RunControl::WaitForEvent);
    assert!(!state.player_alive);
    assert!(state.world.contains(orc));
    assert_eq!(stack.stack.len(), 1);
    assert!(matches!(stack.stack[0], Mode::GameOver(_)));
    assert_eq!(stack.update(&mut state, press(KeyCode::L)), RunControl::WaitForEvent);
    assert_eq!(stack.update(&mut state, press(KeyCode::Return)), RunControl::Quit);
    assert!(stack.is_empty());
    assert_eq!(
        ModeResult::GameOver(GameOverModeResult::Done),
        ModeResult::GameOver(GameOverModeResult::Done)
    );
}

#[test]
fn closing_the_window_leaves_the_dungeon() {
    let mut state = open_state(30, 30);
    let mut stack = ModeStack::new(vec![Mode::Dungeon(DungeonMode::new(&mut state))]);
    assert_eq!(stack.update(&mut state, Some(InputEvent::AppQuit)), RunControl::Quit);
    assert!(stack.is_empty());
}
