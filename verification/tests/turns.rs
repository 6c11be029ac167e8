use rand::SeedableRng;
use rand_pcg::Pcg32;
use ruggle::components::{CombatStats, Entity, FieldOfView, Position};
use ruggle::map::Tile;
use ruggle::monster::{approach_target, decide, monster_act, MonsterAction};
use ruggle::movement::{move_entity, refresh_fov};
use ruggle::rng::RuggleRng;
use ruggle::spawn::MonsterKind;
use ruggle::spawn::spawn_kind_at;
use ruggle::state::{GameState, TurnPhase};
use ruggle::turn::{
    begin_monsters, first_attackable, player_act, resolve, run_monsters, snapshot_monsters,
    take_turn, PlayerAction,
};
use ruggle::ui::Options;

fn open_state(w: i32, h: i32) -> GameState {
    let options = Options { tileset: 2, font: 0, map_zoom: 2, text_zoom: 1 };
    let mut state = GameState::new(w, h, 4, options, RuggleRng(Pcg32::seed_from_u64(11)));
    for y in 0..h {
        for x in 0..w {
            state.map.set_tile(x, y, Tile::Floor);
        }
    }
    state
}

fn place_player(state: &mut GameState, x: i32, y: i32) {
    let player = state.player;
    assert!(move_entity(state, player, (x, y)));
}

fn position(state: &GameState, e: Entity) -> (i32, i32) {
    let p = state.world.position(e).unwrap();
    (p.x, p.y)
}

#[test]
fn a_monster_decides_by_what_it_perceives() {
    let here = Position { x: 5, y: 5 };
    assert_eq!(decide(here, Position { x: 6, y: 6 }, true), MonsterAction::Attack);
    assert_eq!(decide(here, Position { x: 5, y: 4 }, true), MonsterAction::Attack);
    assert_eq!(decide(here, Position { x: 6, y: 6 }, false), MonsterAction::Idle);
    assert_eq!(
        decide(here, Position { x: 9, y: 5 }, true),
        MonsterAction::Approach { dx: 1, dy: 0 }
    );
    assert_eq!(
        decide(here, Position { x: 1, y: 9 }, true),
        MonsterAction::Approach { dx: -1, dy: 1 }
    );
    assert_eq!(
        decide(here, Position { x: 5, y: 0 }, true),
        MonsterAction::Approach { dx: 0, dy: -1 }
    );
    assert_eq!(decide(here, Position { x: 9, y: 5 }, false), MonsterAction::Idle);
}

#[test]
fn a_blocked_diagonal_step_goes_along_the_row_first() {
    let mut state = open_state(10, 10);
    let pos = Position { x: 4, y: 4 };
    assert_eq!(approach_target(&state.map, pos, 1, 1), (5, 5));
    state.map.set_tile(5, 5, Tile::Wall);
    assert_eq!(approach_target(&state.map, pos, 1, 1), (5, 4));
    state.map.set_tile(5, 4, Tile::Wall);
    assert_eq!(approach_target(&state.map, pos, 1, 1), (4, 5));
    state.map.set_tile(4, 5, Tile::Wall);
    assert_eq!(approach_target(&state.map, pos, 1, 1), (4, 4));
    assert_eq!(approach_target(&state.map, pos, -1, 0), (3, 4));
    state.map.set_tile(3, 4, Tile::Wall);
    assert_eq!(approach_target(&state.map, pos, -1, 0), (4, 4));
    let corner = Position { x: 0, y: 0 };
    assert_eq!(approach_target(&state.map, corner, -1, -1), (0, 0));
}

#[test]
fn the_player_walks_and_looks_around() {
    let mut state = open_state(30, 21);
    let player = state.player;
    state.world.set_fov(player, Some(FieldOfView::new(5, 30, 21)));
    place_player(&mut state, 10, 10);
    assert!(state.world.sees(player, 5, 10));
    assert!(!state.world.sees(player, 16, 10));
    let report = take_turn(&mut state, PlayerAction::Step { dx: 1, dy: 0 });
    assert!(report.consumed);
    assert!(report.acted.is_empty());
    assert_eq!(position(&state, player), (11, 10));
    assert_eq!(state.map.entities_at(11, 10), vec![player]);
    assert!(state.map.entities_at(10, 10).is_empty());
    assert!(!state.world.sees(player, 5, 10));
    assert!(state.world.has_seen(player, 5, 10));
    assert!(state.world.sees(player, 16, 10));
    assert_eq!(state.phase, TurnPhase::PlayerActing);
}

#[test]
fn walking_into_a_wall_takes_no_turn() {
    let mut state = open_state(10, 10);
    let player = state.player;
    place_player(&mut state, 4, 4);
    state.map.set_tile(5, 4, Tile::Wall);
    let monster = spawn_kind_at(&mut state, MonsterKind::Goblin, (8, 8));
    let report = take_turn(&mut state, PlayerAction::Step { dx: 1, dy: 0 });
    assert!(!report.consumed);
    assert!(report.acted.is_empty());
    assert_eq!(position(&state, player), (4, 4));
    assert_eq!(position(&state, monster), (8, 8));
    assert_eq!(state.messages.len(), 0);
    place_player(&mut state, 0, 0);
    assert!(!player_act(&mut state, PlayerAction::Step { dx: -1, dy: 0 }));
    assert!(!player_act(&mut state, PlayerAction::Step { dx: 0, dy: -1 }));
    assert_eq!(position(&state, player), (0, 0));
}

#[test]
fn a_cancelled_action_changes_nothing() {
    let mut state = open_state(10, 10);
    let player = state.player;
    place_player(&mut state, 4, 4);
    let monster = spawn_kind_at(&mut state, MonsterKind::Goblin, (6, 4));
    let report = take_turn(&mut state, PlayerAction::Cancelled);
    assert!(!report.consumed);
    assert!(report.acted.is_empty());
    assert_eq!(position(&state, player), (4, 4));
    assert_eq!(position(&state, monster), (6, 4));
    assert_eq!(state.world.stats(player).unwrap().hp, 30);
    assert_eq!(state.messages.len(), 0);
    assert_eq!(state.phase, TurnPhase::PlayerActing);
}

#[test]
fn every_monster_acts_once_in_the_order_of_creation() {
    let mut state = open_state(20, 20);
    let player = state.player;
    place_player(&mut state, 10, 10);
    let a = spawn_kind_at(&mut state, MonsterKind::Goblin, (15, 10));
    let b = spawn_kind_at(&mut state, MonsterKind::Orc, (10, 4));
    let c = spawn_kind_at(&mut state, MonsterKind::Goblin, (6, 14));
    assert_eq!(snapshot_monsters(&state), vec![a, b, c]);
    let report = take_turn(&mut state, PlayerAction::Wait);
    assert!(report.consumed);
    assert_eq!(report.acted, vec![a, b, c]);
    assert_eq!(position(&state, a), (14, 10));
    assert_eq!(position(&state, b), (10, 5));
    assert_eq!(position(&state, c), (7, 13));
    assert_eq!(position(&state, player), (10, 10));
    assert!(state.monster_turns.queue.is_empty());
    assert!(state.dead.ids.is_empty());
    let again = take_turn(&mut state, PlayerAction::Wait);
    assert_eq!(again.acted, vec![a, b, c]);
    assert_eq!(position(&state, a), (13, 10));
}

#[test]
fn a_monster_killed_by_the_player_has_no_turn() {
    let mut state = open_state(20, 20);
    let player = state.player;
    place_player(&mut state, 10, 10);
    let near = spawn_kind_at(&mut state, MonsterKind::Goblin, (11, 10));
    let far = spawn_kind_at(&mut state, MonsterKind::Orc, (10, 15));
    state.world.set_stats(near, Some(CombatStats { max_hp: 16, hp: 4, defense: 1, power: 4 }));
    assert_eq!(first_attackable(&state, 11, 10), Some(near));
    let report = take_turn(&mut state, PlayerAction::Step { dx: 1, dy: 0 });
    assert!(report.consumed);
    assert_eq!(report.acted, vec![far]);
    assert!(!state.world.contains(near));
    assert!(state.map.entities_at(11, 10).is_empty());
    assert!(!state.map.is_blocked(11, 10));
    assert_eq!(position(&state, player), (10, 10));
    assert_eq!(position(&state, far), (10, 14));
    assert_eq!(state.world.stats(player).unwrap().hp, 30);
    assert_eq!(state.messages.recent(0).unwrap(), "Player hits Goblin for 4 hp.");
}

#[test]
fn a_monster_next_to_the_player_attacks() {
    let mut state = open_state(20, 20);
    let player = state.player;
    place_player(&mut state, 10, 10);
    let monster = spawn_kind_at(&mut state, MonsterKind::Orc, (11, 11));
    let report = take_turn(&mut state, PlayerAction::Wait);
    assert_eq!(report.acted, vec![monster]);
    assert_eq!(position(&state, monster), (11, 11));
    assert_eq!(state.world.stats(player).unwrap().hp, 28);
    assert_eq!(state.messages.recent(0).unwrap(), "Orc hits Player for 2 hp.");
    assert!(state.player_alive);
}

#[test]
fn a_monster_that_sees_nothing_idles() {
    let mut state = open_state(30, 30);
    place_player(&mut state, 2, 2);
    let monster = spawn_kind_at(&mut state, MonsterKind::Orc, (25, 25));
    assert_eq!(monster_act(&mut state, monster), MonsterAction::Idle);
    assert_eq!(position(&state, monster), (25, 25));
    let hidden = spawn_kind_at(&mut state, MonsterKind::Goblin, (6, 2));
    state.map.set_tile(4, 1, Tile::Wall);
    state.map.set_tile(4, 2, Tile::Wall);
    state.map.set_tile(4, 3, Tile::Wall);
    assert_eq!(monster_act(&mut state, hidden), MonsterAction::Idle);
    state.map.set_tile(4, 1, Tile::Floor);
    state.map.set_tile(4, 2, Tile::Floor);
    state.map.set_tile(4, 3, Tile::Floor);
    assert_eq!(monster_act(&mut state, hidden), MonsterAction::Approach { dx: -1, dy: 0 });
    assert_eq!(position(&state, hidden), (5, 2));
}

#[test]
fn the_player_dies_and_the_dead_take_no_more_turns() {
    let mut state = open_state(20, 20);
    let player = state.player;
    place_player(&mut state, 10, 10);
    state.world.set_stats(player, Some(CombatStats { max_hp: 30, hp: 3, defense: 2, power: 5 }));
    let a = spawn_kind_at(&mut state, MonsterKind::Orc, (11, 10));
    let b = spawn_kind_at(&mut state, MonsterKind::Orc, (9, 10));
    let c = spawn_kind_at(&mut state, MonsterKind::Orc, (10, 11));
    let report = take_turn(&mut state, PlayerAction::Wait);
    // The third monster still has its turn, but finds nobody to attack.
    assert_eq!(report.acted, vec![a, b, c]);
    assert_eq!(state.world.stats(player).unwrap().hp, 0);
    assert_eq!(state.messages.len(), 2);
    assert!(!state.player_alive);
    assert!(state.world.contains(player));
    assert!(!state.map.has_entity(player, 10, 10));
    let after = take_turn(&mut state, PlayerAction::Wait);
    assert!(!after.consumed);
    assert!(after.acted.is_empty());
    assert!(state.world.contains(a));
}

#[test]
fn the_pass_skips_who_is_gone_or_dead() {
    let mut state = open_state(20, 20);
    let player = state.player;
    place_player(&mut state, 10, 10);
    let a = spawn_kind_at(&mut state, MonsterKind::Goblin, (15, 10));
    let b = spawn_kind_at(&mut state, MonsterKind::Orc, (10, 4));
    let c = spawn_kind_at(&mut state, MonsterKind::Goblin, (6, 14));
    begin_monsters(&mut state);
    assert_eq!(state.phase, TurnPhase::MonstersActing);
    assert_eq!(state.monster_turns.queue, vec![a, b, c]);
    // One of them dies before its turn comes.
    ruggle::damage::apply_damage(&mut state, player, b, 100);
    state.monster_turns.queue.push(Entity(77));
    state.monster_turns.queue.push(player);
    let acted = run_monsters(&mut state);
    assert_eq!(acted, vec![a, c]);
    assert_eq!(state.phase, TurnPhase::Resolved);
    assert_eq!(position(&state, b), (10, 4));
    assert!(state.world.contains(b));
    resolve(&mut state);
    assert_eq!(state.phase, TurnPhase::PlayerActing);
    assert!(!state.world.contains(b));
    assert!(state.dead.ids.is_empty());
}

#[test]
fn moving_keeps_the_map_and_the_world_in_step() {
    let mut state = open_state(10, 10);
    let monster = spawn_kind_at(&mut state, MonsterKind::Orc, (3, 3));
    assert!(state.map.is_blocked(3, 3));
    assert!(!move_entity(&mut state, monster, (3, 3)));
    assert!(move_entity(&mut state, monster, (4, 3)));
    assert!(!state.map.is_blocked(3, 3));
    assert!(state.map.is_blocked(4, 3));
    assert_eq!(position(&state, monster), (4, 3));
    assert!(!move_entity(&mut state, monster, (10, 3)));
    assert!(!move_entity(&mut state, monster, (-1, 3)));
    let other = spawn_kind_at(&mut state, MonsterKind::Orc, (5, 3));
    assert!(!move_entity(&mut state, monster, (5, 3)));
    assert_eq!(state.map.entities_at(5, 3), vec![other]);
    // The player blocks nothing, so a monster's step onto it is a matter of
    // the monster's decision, not of the map.
    let player = state.player;
    assert!(move_entity(&mut state, player, (6, 6)));
    assert!(!state.map.is_blocked(6, 6));
    refresh_fov(&mut state, player);
    assert!(state.world.sees(player, 6, 6));
}

#[test]
fn a_step_leads_to_a_neighbouring_tile_only() {
    let mut state = open_state(20, 20);
    let player = state.player;
    place_player(&mut state, 10, 10);
    let refused = [(2, 0), (0, -2), (3, 3), (0, 0), (-1, 2), (i32::MAX, 0), (i32::MIN, i32::MIN)];
    for (dx, dy) in refused {
        let report = take_turn(&mut state, PlayerAction::Step { dx, dy });
        assert!(!report.consumed);
        assert_eq!(position(&state, player), (10, 10));
    }
    for (dx, dy) in [(1, 1), (-1, -1), (0, 1), (-1, 0)] {
        let report = take_turn(&mut state, PlayerAction::Step { dx, dy });
        assert!(report.consumed);
    }
    assert_eq!(position(&state, player), (9, 11));
}
