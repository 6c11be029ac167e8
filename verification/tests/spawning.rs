use rand::SeedableRng;
use rand_pcg::Pcg32;
use ruggle::components::{Color, CombatStats, Entity, Position, Renderable, Tags};
use ruggle::map::{GameMap, Rect, Tile};
use ruggle::rng::RuggleRng;
use ruggle::spawn::MonsterKind;
use ruggle::spawn::{
    fill_room_with_spawns, fill_rooms_with_spawns, spawn_kind_at, spawn_monster,
    spawn_monsters_at, spawn_player, spawn_random_monster_at, FOV_RANGE,
};
use ruggle::state::{GameState, TurnPhase};
use ruggle::turn::snapshot_monsters;
use ruggle::ui::Options;
use ruggle::world::World;

fn state_with_rooms(seed: u64) -> GameState {
    let options = Options { tileset: 2, font: 0, map_zoom: 2, text_zoom: 1 };
    let mut state = GameState::new(40, 30, 4, options, RuggleRng(Pcg32::seed_from_u64(seed)));
    let rooms = [
        Rect { x1: 1, y1: 1, x2: 6, y2: 6 },
        Rect { x1: 10, y1: 1, x2: 16, y2: 5 },
        Rect { x1: 20, y1: 10, x2: 30, y2: 20 },
        Rect { x1: 3, y1: 22, x2: 9, y2: 27 },
    ];
    for room in rooms {
        for (x, y) in room.iter_xy() {
            state.map.set_tile(x, y, Tile::Floor);
        }
        state.map.rooms.push(room);
    }
    state
}

fn monsters(state: &GameState) -> Vec<Entity> {
    (1..state.world.len()).map(Entity).filter(|e| state.world.tags(*e).monster).collect()
}

#[test]
fn a_new_game_has_the_player_and_nobody_else() {
    let options = Options { tileset: 2, font: 0, map_zoom: 2, text_zoom: 1 };
    let state = GameState::new(80, 50, 4, options, RuggleRng(Pcg32::seed_from_u64(1)));
    let player = state.player;
    assert_eq!(player, Entity(0));
    assert_eq!(state.world.len(), 1);
    assert!(state.player_alive);
    assert_eq!(state.phase, TurnPhase::PlayerActing);
    assert_eq!(state.options, options);
    assert_eq!((state.map.width, state.map.height), (80, 50));
    assert_eq!(state.messages.capacity, 4);
    assert_eq!(state.messages.len(), 0);
    assert!(state.dead.ids.is_empty());
    assert!(state.monster_turns.queue.is_empty());
    assert_eq!(
        state.world.tags(player),
        Tags { player: true, monster: false, item: false, blocks_tile: false }
    );
    assert_eq!(
        state.world.stats(player),
        Some(CombatStats { max_hp: 30, hp: 30, defense: 2, power: 5 })
    );
    assert_eq!(state.world.name(player).unwrap(), "Player");
    assert_eq!(state.world.position(player), Some(Position { x: 0, y: 0 }));
    assert_eq!(
        state.world.renderable(player),
        Some(Renderable {
            ch: '@',
            fg: Color { r: 255, g: 255, b: 0 },
            bg: Color { r: 0, g: 0, b: 0 }
        })
    );
    assert!(state.world.has_fov(player));
    assert_eq!(state.world.fovs[0].as_ref().unwrap().range, 8);
    assert_eq!(FOV_RANGE, 8);
    assert!(!state.world.sees(player, 0, 0));
    assert_eq!(state.map.entities_at(0, 0), vec![player]);
}

#[test]
fn the_player_is_spawned_into_a_world() {
    let mut world = World::new();
    let mut map = GameMap::new(5, 5);
    world.create();
    let player = spawn_player(&mut world, &mut map);
    assert_eq!(player, Entity(1));
    assert!(world.tags(player).player);
    assert!(map.has_entity(player, 0, 0));
    assert!(world.tags(Entity(0)) == Tags::none());
}

#[test]
fn a_monster_comes_with_its_stats_and_blocks_its_tile() {
    let mut state = state_with_rooms(5);
    let orc = spawn_kind_at(&mut state, MonsterKind::Orc, (3, 3));
    assert_eq!(orc, Entity(1));
    assert_eq!(
        state.world.tags(orc),
        Tags { player: false, monster: true, item: false, blocks_tile: true }
    );
    assert_eq!(
        state.world.stats(orc),
        Some(CombatStats { max_hp: 16, hp: 16, defense: 1, power: 4 })
    );
    assert_eq!(state.world.name(orc).unwrap(), "Orc");
    assert_eq!(state.world.position(orc), Some(Position { x: 3, y: 3 }));
    assert_eq!(
        state.world.renderable(orc),
        Some(Renderable {
            ch: 'o',
            fg: Color { r: 230, g: 77, b: 51 },
            bg: Color { r: 0, g: 0, b: 0 }
        })
    );
    assert!(state.world.has_fov(orc));
    assert!(state.map.is_blocked(3, 3));
    assert_eq!(state.map.entities_at(3, 3), vec![orc]);
    let goblin = spawn_kind_at(&mut state, MonsterKind::Goblin, (4, 3));
    assert_eq!(state.world.name(goblin).unwrap(), "Goblin");
    assert_eq!(state.world.renderable(goblin).unwrap().ch, 'g');
    assert_eq!(state.world.renderable(goblin).unwrap().fg, Color { r: 128, g: 230, b: 51 });
    assert_eq!(MonsterKind::Goblin.name(), "Goblin");
    assert_eq!(MonsterKind::Orc.glyph(), 'o');
}

#[test]
fn a_monster_is_spawned_onto_any_tile_that_nobody_blocks() {
    let mut state = state_with_rooms(5);
    // Onto a wall, where the player stands, who does not block.
    assert_eq!(state.map.tile_kind(0, 0), Tile::Wall);
    assert!(state.map.is_blocked(0, 0));
    assert!(!state.map.has_blocker(0, 0));
    let on_wall = spawn_kind_at(&mut state, MonsterKind::Orc, (0, 0));
    assert_eq!(on_wall, Entity(1));
    assert_eq!(state.world.position(on_wall), Some(Position { x: 0, y: 0 }));
    assert_eq!(state.map.entities_at(0, 0), vec![state.player, on_wall]);
    assert!(state.world.tags(on_wall).monster);
    assert!(state.map.has_blocker(0, 0));
    // Onto a floor tile.
    let first = spawn_kind_at(&mut state, MonsterKind::Orc, (3, 3));
    assert_eq!(first, Entity(2));
    assert!(state.map.has_blocker(3, 3));
    assert!(!state.map.can_place(Entity(7), (3, 3), true));
    assert!(state.map.can_place(Entity(7), (3, 3), false));
    let second = spawn_random_monster_at(&mut state, (3, 4));
    assert_eq!(second, Entity(3));
    assert_eq!(state.world.len(), 4);
    assert_eq!(state.map.entities_at(3, 3), vec![first]);
    assert!(state.map.is_blocked(3, 4));
    // Onto the last tile of the map.
    assert!(!state.map.has_blocker(39, 29));
    let corner = spawn_kind_at(&mut state, MonsterKind::Goblin, (39, 29));
    assert_eq!(state.world.position(corner), Some(Position { x: 39, y: 29 }));
    assert_eq!(state.world.stats(corner).unwrap().hp, 16);
    let name = "Troll".to_string();
    let fg = Color { r: 9, g: 9, b: 9 };
    let troll = spawn_monster(&mut state.world, &mut state.map, (4, 4), 'T', name, fg);
    assert_eq!(state.world.name(troll).unwrap(), "Troll");
    assert_eq!(state.world.renderable(troll).unwrap().ch, 'T');
    assert_eq!(state.world.renderable(troll).unwrap().fg, fg);
    assert_eq!(monsters(&state).len(), 5);
}

#[test]
fn a_random_monster_is_a_goblin_or_an_orc() {
    let mut goblins = 0;
    let mut orcs = 0;
    for seed in 0..40 {
        let mut state = state_with_rooms(seed);
        let monster = spawn_random_monster_at(&mut state, (12, 3));
        assert_eq!(state.world.position(monster), Some(Position { x: 12, y: 3 }));
        let name = state.world.name(monster).unwrap();
        let looks = state.world.renderable(monster).unwrap();
        if name == "Goblin" {
            assert_eq!(looks.ch, 'g');
            goblins += 1;
        } else {
            assert_eq!(name, "Orc");
            assert_eq!(looks.ch, 'o');
            orcs += 1;
        }
    }
    assert!(goblins > 0);
    assert!(orcs > 0);
}

#[test]
fn monsters_appear_on_the_tiles_that_nobody_blocks() {
    let mut state = state_with_rooms(9);
    let tiles = vec![(2, 2), (0, 0), (3, 2), (2, 2), (50, 2), (-1, 0)];
    assert_eq!(spawn_monsters_at(&mut state, &tiles), 3);
    assert_eq!(monsters(&state), vec![Entity(1), Entity(2), Entity(3)]);
    // The monsters come in the order of their tiles, on walls too.
    assert_eq!(state.world.position(Entity(1)), Some(Position { x: 2, y: 2 }));
    assert_eq!(state.world.position(Entity(2)), Some(Position { x: 0, y: 0 }));
    assert_eq!(state.world.position(Entity(3)), Some(Position { x: 3, y: 2 }));
    assert_eq!(state.map.entities_at(2, 2), vec![Entity(1)]);
    assert_eq!(state.map.entities_at(3, 2), vec![Entity(3)]);
    assert_eq!(state.map.entities_at(0, 0), vec![state.player, Entity(2)]);
    assert!(state.map.is_blocked(2, 2) && state.map.is_blocked(3, 2));
    assert!(!state.map.is_blocked(4, 2));
    for e in monsters(&state) {
        let name = state.world.name(e).unwrap();
        assert!(name == "Goblin" || name == "Orc");
    }
    // Nobody comes to a tile that a monster blocks, or that is off the map.
    assert_eq!(spawn_monsters_at(&mut state, &tiles), 0);
    assert_eq!(spawn_monsters_at(&mut state, &vec![(50, 2), (3, 30)]), 0);
    assert_eq!(spawn_monsters_at(&mut state, &Vec::new()), 0);
    assert_eq!(state.world.len(), 4);
}

#[test]
fn a_monster_that_comes_is_owed_a_turn_from_the_next_pass_on() {
    let mut state = state_with_rooms(3);
    let first = spawn_kind_at(&mut state, MonsterKind::Orc, (3, 3));
    let before = snapshot_monsters(&state);
    assert_eq!(before, vec![first]);
    let tags_before = state.world.tags(first);
    let second = spawn_random_monster_at(&mut state, (4, 4));
    let after = snapshot_monsters(&state);
    assert_eq!(after, vec![first, second]);
    assert_eq!(after.iter().filter(|e| **e == second).count(), 1);
    assert_eq!(state.world.tags(first), tags_before);
    assert!(!state.world.tags(state.player).monster);
    assert!(state.monster_turns.queue.is_empty());
    assert_eq!(monsters(&state).len(), 2);
    // Three more at once: they come behind the others, in their order.
    assert_eq!(spawn_monsters_at(&mut state, &vec![(5, 5), (6, 5), (5, 6)]), 3);
    assert_eq!(snapshot_monsters(&state), vec![first, second, Entity(3), Entity(4), Entity(5)]);
}

#[test]
fn a_room_is_filled_with_monsters_that_stand_apart() {
    // A room of two tiles gets up to two monsters, never two on one tile.
    let room = Rect { x1: 2, y1: 2, x2: 3, y2: 2 };
    let mut counts = [0usize; 3];
    for seed in 0..120 {
        let mut state = state_with_rooms(seed);
        let count = fill_room_with_spawns(&mut state, &room);
        assert!(count <= 2);
        counts[count] += 1;
        if count == 2 {
            let a = state.world.position(Entity(1)).unwrap();
            let b = state.world.position(Entity(2)).unwrap();
            assert_ne!(a, b);
            assert_eq!(state.map.entities_at(a.x, a.y).len(), 1);
            assert_eq!(state.map.entities_at(b.x, b.y).len(), 1);
        }
    }
    assert!(counts.iter().all(|n| *n > 0), "counts: {:?}", counts);
    // A room that lies off the map stays empty, whatever is drawn.
    let off = Rect { x1: 40, y1: 0, x2: 45, y2: 5 };
    for seed in 0..20 {
        let mut state = state_with_rooms(seed);
        assert_eq!(fill_room_with_spawns(&mut state, &off), 0);
        assert_eq!(state.world.len(), 1);
    }
    // Nobody comes to a tile that a monster blocks already.
    let one = Rect { x1: 3, y1: 3, x2: 3, y2: 3 };
    for seed in 0..40 {
        let mut state = state_with_rooms(seed);
        let first = spawn_kind_at(&mut state, MonsterKind::Orc, (3, 3));
        assert_eq!(fill_room_with_spawns(&mut state, &one), 0);
        assert_eq!(state.map.entities_at(3, 3), vec![first]);
    }
    // A room of walls is filled like any other.
    let walls = Rect { x1: 30, y1: 2, x2: 33, y2: 4 };
    let mut came = 0;
    for seed in 0..40 {
        let mut state = state_with_rooms(seed);
        assert_eq!(state.map.tile_kind(31, 3), Tile::Wall);
        came += fill_room_with_spawns(&mut state, &walls);
    }
    assert!(came > 0);
}

#[test]
fn without_a_second_room_nobody_comes() {
    let options = Options { tileset: 2, font: 0, map_zoom: 2, text_zoom: 1 };
    let mut state = GameState::new(20, 10, 4, options, RuggleRng(Pcg32::seed_from_u64(8)));
    fill_rooms_with_spawns(&mut state);
    assert_eq!(state.world.len(), 1);
    let room = Rect { x1: 1, y1: 1, x2: 6, y2: 6 };
    for (x, y) in room.iter_xy() {
        state.map.set_tile(x, y, Tile::Floor);
    }
    state.map.rooms.push(room);
    for _ in 0..20 {
        fill_rooms_with_spawns(&mut state);
    }
    assert_eq!(state.world.len(), 1);
    assert!(monsters(&state).is_empty());
}

#[test]
fn a_room_gets_up_to_three_monsters_on_tiles_of_its_own() {
    let room = Rect { x1: 20, y1: 10, x2: 30, y2: 20 };
    let mut counts = [0usize; 4];
    for seed in 0..200 {
        let mut state = state_with_rooms(seed);
        let count = fill_room_with_spawns(&mut state, &room);
        assert!(count <= 3);
        counts[count] += 1;
        let spawned = monsters(&state);
        assert_eq!(spawned.len(), count);
        let mut seen = Vec::new();
        for e in spawned {
            let p = state.world.position(e).unwrap();
            assert!(room.x1 <= p.x && p.x <= room.x2 && room.y1 <= p.y && p.y <= room.y2);
            assert!(!seen.contains(&(p.x, p.y)));
            seen.push((p.x, p.y));
            assert_eq!(state.map.entities_at(p.x, p.y), vec![e]);
        }
    }
    // Every number of monsters from none to three turns up.
    assert!(counts.iter().all(|n| *n > 0), "counts: {:?}", counts);
    // About half of the rooms stay empty.
    assert!(counts[0] > 60 && counts[0] < 140, "counts: {:?}", counts);
}

#[test]
fn a_small_room_gets_no_more_monsters_than_it_has_tiles() {
    let room = Rect { x1: 2, y1: 2, x2: 2, y2: 2 };
    let mut filled = 0;
    for seed in 0..50 {
        let mut state = state_with_rooms(seed);
        let count = fill_room_with_spawns(&mut state, &room);
        assert!(count <= 1);
        filled += count;
    }
    assert!(filled > 0);
}

#[test]
fn the_first_room_stays_empty() {
    let mut total = 0;
    for seed in 0..30 {
        let mut state = state_with_rooms(seed);
        let before = state.world.len();
        fill_rooms_with_spawns(&mut state);
        let spawned = monsters(&state);
        assert_eq!(state.world.len(), before + spawned.len());
        assert!(spawned.len() <= 9);
        total += spawned.len();
        for e in spawned {
            let p = state.world.position(e).unwrap();
            assert!(!(1 <= p.x && p.x <= 6 && 1 <= p.y && p.y <= 6));
            assert_eq!(state.map.tile_kind(p.x, p.y), Tile::Floor);
            assert_eq!(state.world.stats(e).unwrap().hp, 16);
            assert!(state.map.is_blocked(p.x, p.y));
        }
        assert_eq!(state.world.position(state.player), Some(Position { x: 0, y: 0 }));
    }
    assert!(total > 0);
}

#[test]
fn the_same_seed_gives_the_same_monsters() {
    let mut a = state_with_rooms(42);
    let mut b = state_with_rooms(42);
    fill_rooms_with_spawns(&mut a);
    fill_rooms_with_spawns(&mut b);
    assert_eq!(a.world.len(), b.world.len());
    for e in monsters(&a) {
        assert_eq!(a.world.position(e), b.world.position(e));
        assert_eq!(a.world.name(e), b.world.name(e));
    }
}
