use rand::SeedableRng;
use rand_pcg::Pcg32;
use ruggle::components::{CombatStats, Entity};
use ruggle::damage::{apply_damage, damage_dealt, hit_message, sweep_dead};
use ruggle::map::Tile;
use ruggle::rng::RuggleRng;
use ruggle::spawn::MonsterKind;
use ruggle::spawn::spawn_kind_at;
use ruggle::state::GameState;
use ruggle::ui::Options;

fn new_state() -> GameState {
    let options = Options { tileset: 2, font: 0, map_zoom: 2, text_zoom: 1 };
    let mut state = GameState::new(20, 15, 4, options, RuggleRng(Pcg32::seed_from_u64(7)));
    for y in 0..15 {
        for x in 0..20 {
            state.map.set_tile(x, y, Tile::Floor);
        }
    }
    state
}

#[test]
fn player_takes_reduced_damage() {
    let mut state = new_state();
    let player = state.player;
    assert_eq!(
        state.world.stats(player),
        Some(CombatStats { max_hp: 30, hp: 30, defense: 2, power: 5 })
    );
    apply_damage(&mut state, Entity(99), player, 5);
    assert_eq!(state.world.stats(player).unwrap().hp, 27);
    assert_eq!(state.messages.len(), 1);
    assert_eq!(state.messages.recent(0).unwrap(), "Something hits Player for 3 hp.");
    apply_damage(&mut state, Entity(99), player, 1);
    assert_eq!(state.world.stats(player).unwrap().hp, 26);
    assert_eq!(state.messages.recent(0).unwrap(), "Something hits Player for 1 hp.");
    assert!(!state.dead.contains(player));
}

#[test]
fn damage_has_a_floor_of_one() {
    assert_eq!(damage_dealt(5, 2), 3);
    assert_eq!(damage_dealt(1, 2), 1);
    assert_eq!(damage_dealt(2, 2), 1);
    assert_eq!(damage_dealt(3, 2), 1);
    assert_eq!(damage_dealt(4, 2), 2);
    assert_eq!(damage_dealt(0, 2), 0);
    assert_eq!(damage_dealt(-4, 0), 0);
    assert_eq!(damage_dealt(i32::MAX, 0), i32::MAX);
}

#[test]
fn an_attack_without_strength_does_nothing_but_is_logged() {
    let mut state = new_state();
    let player = state.player;
    apply_damage(&mut state, player, player, 0);
    assert_eq!(state.world.stats(player).unwrap().hp, 30);
    assert_eq!(state.messages.recent(0).unwrap(), "Player is unable to hurt Player.");
}

#[test]
fn hit_messages_name_both_sides() {
    assert_eq!(hit_message("Orc", "Player", 12), "Orc hits Player for 12 hp.");
    assert_eq!(hit_message("Orc", "Player", 0), "Orc is unable to hurt Player.");
}

#[test]
fn hit_points_stay_between_zero_and_the_maximum() {
    let mut state = new_state();
    let player = state.player;
    for amount in [3, 0, 7, -2, 1, 100, 5] {
        apply_damage(&mut state, Entity(99), player, amount);
        let stats = state.world.stats(player).unwrap();
        assert!(0 <= stats.hp && stats.hp <= stats.max_hp);
    }
    assert_eq!(state.world.stats(player).unwrap().hp, 0);
}

#[test]
fn a_monster_with_one_hit_point_dies_of_any_hit() {
    let mut state = new_state();
    let player = state.player;
    let monster = spawn_kind_at(&mut state, MonsterKind::Orc, (5, 5));
    state.world.set_stats(
        monster,
        Some(CombatStats { max_hp: 16, hp: 1, defense: 1, power: 4 }),
    );
    assert!(state.map.is_blocked(5, 5));
    apply_damage(&mut state, player, monster, 1);
    assert_eq!(state.world.stats(monster).unwrap().hp, 0);
    assert!(state.dead.contains(monster));
    // Until the sweep the monster keeps its place and its components.
    assert_eq!(state.map.entities_at(5, 5), vec![monster]);
    assert!(state.map.is_blocked(5, 5));
    assert!(state.world.contains(monster));
    assert_eq!(state.world.name(monster).unwrap(), "Orc");
    assert!(state.world.position(monster).is_some());
    sweep_dead(&mut state);
    assert!(state.map.entities_at(5, 5).is_empty());
    assert!(!state.map.is_blocked(5, 5));
    assert!(!state.world.contains(monster));
    assert!(state.world.stats(monster).is_none());
    assert!(state.world.name(monster).is_none());
    assert!(!state.dead.contains(monster));
    assert!(state.player_alive);
    assert!(state.world.contains(player));
}

#[test]
fn recording_a_death_twice_changes_nothing() {
    let mut state = new_state();
    let player = state.player;
    let monster = spawn_kind_at(&mut state, MonsterKind::Goblin, (3, 4));
    apply_damage(&mut state, player, monster, 100);
    apply_damage(&mut state, player, monster, 100);
    assert_eq!(state.dead.ids, vec![monster]);
    assert_eq!(state.world.stats(monster).unwrap().hp, 0);
}

#[test]
fn sweeping_a_dead_player_lowers_the_alive_flag() {
    let mut state = new_state();
    let player = state.player;
    apply_damage(&mut state, player, player, 1000);
    assert_eq!(state.world.stats(player).unwrap().hp, 0);
    assert!(state.dead.contains(player));
    assert!(state.player_alive);
    assert!(state.map.has_entity(player, 0, 0));
    sweep_dead(&mut state);
    assert!(!state.player_alive);
    assert!(state.world.contains(player));
    assert_eq!(state.world.stats(player).unwrap().hp, 0);
    assert!(!state.map.has_entity(player, 0, 0));
    assert!(!state.dead.contains(player));
}

#[test]
fn the_sweep_leaves_the_living_alone() {
    let mut state = new_state();
    let player = state.player;
    let a = spawn_kind_at(&mut state, MonsterKind::Goblin, (3, 4));
    let b = spawn_kind_at(&mut state, MonsterKind::Orc, (4, 4));
    apply_damage(&mut state, player, a, 100);
    sweep_dead(&mut state);
    assert!(!state.world.contains(a));
    assert!(state.world.contains(b));
    assert_eq!(state.world.stats(b).unwrap().hp, 16);
    assert_eq!(state.map.entities_at(4, 4), vec![b]);
    assert!(state.map.is_blocked(4, 4));
    assert!(!state.map.is_blocked(3, 4));
}
