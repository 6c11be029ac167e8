//! Bringing the player and the monsters into the world.

use vstd::prelude::*;
use vstd::string::*;
use crate::components::{Color, CombatStats, Entity, FieldOfView, Position, Renderable, Tags};
use crate::map::{GameMap, Occupant, Rect};
use crate::rng::{choose_kind, choose_tiles, gen_range, gen_ratio};
use crate::state::{spec_fovs_fit, spec_placement_sound, GameState};
use crate::turn::{lemma_takers_same, spec_takers, spec_takes_turn};
use crate::ui::{black, yellow};
use crate::world::World;

verus! {

/// How far the player and the monsters see.
pub const FOV_RANGE: i32 = 8;

/// The combat stats that the player starts with.
pub open spec fn spec_player_stats() -> CombatStats {
    CombatStats { max_hp: 30, hp: 30, defense: 2, power: 5 }
}

/// The combat stats that a monster starts with.
pub open spec fn spec_monster_stats() -> CombatStats {
    CombatStats { max_hp: 16, hp: 16, defense: 1, power: 4 }
}

/// Whether `world` is `before` with one more entity, which has the given
/// roles, stats, name, position and looks, and a field of view in which
/// nothing is visible or seen yet.
pub open spec fn spec_spawned(
    world: &World,
    before: &World,
    tags: Tags,
    stats: CombatStats,
    name: Seq<char>,
    pos: Position,
    looks: Renderable,
) -> bool {
    let e = Entity(before.live.len() as usize);
    &&& world.live.len() == before.live.len() + 1
    &&& forall|o: Entity| o != e ==> #[trigger] world.spec_same_entity(before, o)
    &&& world.spec_contains(e)
    &&& world.spec_tags(e) == tags
    &&& world.spec_stats(e) == Some(stats)
    &&& world.spec_name(e) == Some(name)
    &&& world.spec_position(e) == Some(pos)
    &&& world.spec_renderable(e) == Some(looks)
    &&& world.spec_fov(e).is_some()
    &&& world.spec_fov(e).unwrap().range == FOV_RANGE
    &&& world.spec_fov(e).unwrap().visible@ == Set::<(int, int)>::empty()
    &&& world.spec_fov(e).unwrap().seen@ == Set::<(int, int)>::empty()
}

/// Whether `map` is `before` with entity `e` added to tile `pos`.
pub open spec fn spec_placed(map: &GameMap, before: &GameMap, e: Entity, pos: Position,
    blocks: bool)
    -> bool {
    let i = before.spec_idx(pos.x as int, pos.y as int);
    &&& map.width == before.width
    &&& map.height == before.height
    &&& map.depth == before.depth
    &&& map.tiles == before.tiles
    &&& map.sight == before.sight
    &&& map.rooms == before.rooms
    &&& map.occupants.len() == before.occupants.len()
    &&& map.occupants[i]@ == before.occupants[i]@.push(Occupant { id: e, blocks })
    &&& forall|j: int|
        0 <= j < before.occupants.len() && j != i ==> #[trigger] map.occupants[j]
            == before.occupants[j]
}

fn spawn(
    world: &mut World,
    map: &mut GameMap,
    tags: Tags,
    stats: CombatStats,
    name: String,
    pos: Position,
    looks: Renderable,
) -> (e: Entity)
    requires
        old(world).wf(),
        old(map).wf(),
        spec_placement_sound(old(world), old(map)),
        spec_fovs_fit(old(world), old(map)),
        stats.wf(),
        old(map).spec_in_bounds(pos.x as int, pos.y as int),
        tags.blocks_tile ==> !old(map).spec_has_blocker(pos.x as int, pos.y as int),
    ensures
        final(world).wf(),
        final(map).wf(),
        spec_placement_sound(final(world), final(map)),
        spec_fovs_fit(final(world), final(map)),
        e == Entity(old(world).live.len() as usize),
        spec_spawned(final(world), old(world), tags, stats, name@, pos, looks),
        spec_placed(final(map), old(map), e, pos, tags.blocks_tile),
{
    let e = world.create();
    world.set_tags(e, tags);
    world.set_stats(e, Some(stats));
    world.set_fov(e, Some(FieldOfView::new(FOV_RANGE, map.width, map.height)));
    world.set_name(e, Some(name));
    world.set_position(e, Some(pos));
    world.set_renderable(e, Some(looks));
    proof {
        let row = map.spec_occupants(pos.x as int, pos.y as int);
        assert forall|k: int| 0 <= k < row.len() implies (#[trigger] row[k]).id != e by {
            crate::geometry::lemma_index_bounds(
                pos.x as int,
                pos.y as int,
                map.width as int,
                map.height as int,
            );
            assert(old(world).spec_contains(row[k].id));
        }
    }
    map.place_entity(e, (pos.x, pos.y), tags.blocks_tile);
    proof {
        assert forall|o: Entity| (#[trigger] world.spec_fov(o)).is_some() implies world.spec_fov(
            o,
        ).unwrap().fits(map.width as int, map.height as int) by {
            if o != e {
                assert(old(world).spec_fov(o) == world.spec_fov(o));
            }
        }
        crate::geometry::lemma_index_bounds(
            pos.x as int,
            pos.y as int,
            old(map).width as int,
            old(map).height as int,
        );
    }
    e
}

/// Creates the player at tile `(0, 0)` and returns its identifier.
pub fn spawn_player(world: &mut World, map: &mut GameMap) -> (player: Entity)
    requires
        old(world).wf(),
        old(map).wf(),
        spec_placement_sound(old(world), old(map)),
        spec_fovs_fit(old(world), old(map)),
    ensures
        final(world).wf(),
        final(map).wf(),
        spec_placement_sound(final(world), final(map)),
        spec_fovs_fit(final(world), final(map)),
        player == Entity(old(world).live.len() as usize),
        spec_spawned(
            final(world),
            old(world),
            Tags { player: true, monster: false, item: false, blocks_tile: false },
            spec_player_stats(),
            "Player"@,
            Position { x: 0, y: 0 },
            Renderable { ch: '@', fg: yellow(), bg: black() },
        ),
        spec_placed(final(map), old(map), player, Position { x: 0, y: 0 }, false),
{
    spawn(
        world,
        map,
        Tags { player: true, monster: false, item: false, blocks_tile: false },
        CombatStats { max_hp: 30, hp: 30, defense: 2, power: 5 },
        String::from_str("Player"),
        Position { x: 0, y: 0 },
        Renderable { ch: '@', fg: yellow(), bg: black() },
    )
}

/// Creates a monster on tile `pos` of the map, which it blocks from now on,
/// and returns its identifier.
///
/// The tile may be of any kind, a wall too, and others may stand on it, but
/// none that blocks it: no two blockers share a tile.
pub fn spawn_monster(
    world: &mut World,
    map: &mut GameMap,
    pos: (i32, i32),
    ch: char,
    name: String,
    fg: Color,
) -> (monster: Entity)
    requires
        old(world).wf(),
        old(map).wf(),
        spec_placement_sound(old(world), old(map)),
        spec_fovs_fit(old(world), old(map)),
        old(map).spec_in_bounds(pos.0 as int, pos.1 as int),
        !old(map).spec_has_blocker(pos.0 as int, pos.1 as int),
    ensures
        final(world).wf(),
        final(map).wf(),
        spec_placement_sound(final(world), final(map)),
        spec_fovs_fit(final(world), final(map)),
        monster == Entity(old(world).live.len() as usize),
        spec_spawned(
            final(world),
            old(world),
            Tags { player: false, monster: true, item: false, blocks_tile: true },
            spec_monster_stats(),
            name@,
            Position { x: pos.0, y: pos.1 },
            Renderable { ch, fg, bg: black() },
        ),
        spec_placed(final(map), old(map), monster, Position { x: pos.0, y: pos.1 }, true),
{
    spawn(
        world,
        map,
        Tags { player: false, monster: true, item: false, blocks_tile: true },
        CombatStats { max_hp: 16, hp: 16, defense: 1, power: 4 },
        name,
        Position { x: pos.0, y: pos.1 },
        Renderable { ch, fg, bg: black() },
    )
}

/// The kinds of monster that a level is populated with.
#[derive(Clone, Copy, PartialEq, Eq, Structural, Debug)]
pub enum MonsterKind {
    Goblin,
    Orc,
}

impl MonsterKind {
    /// The glyph of the kind.
    pub open spec fn spec_glyph(&self) -> char {
        match self {
            MonsterKind::Goblin => 'g',
            MonsterKind::Orc => 'o',
        }
    }

    /// The name of the kind.
    pub open spec fn spec_name(&self) -> Seq<char> {
        match self {
            MonsterKind::Goblin => "Goblin"@,
            MonsterKind::Orc => "Orc"@,
        }
    }

    /// The colour of the kind.
    pub open spec fn spec_color(&self) -> Color {
        match self {
            MonsterKind::Goblin => Color { r: 128, g: 230, b: 51 },
            MonsterKind::Orc => Color { r: 230, g: 77, b: 51 },
        }
    }

    /// The glyph of the kind.
    pub fn glyph(&self) -> (c: char)
        ensures
            c == self.spec_glyph(),
    {
        match self {
            MonsterKind::Goblin => 'g',
            MonsterKind::Orc => 'o',
        }
    }

    /// The name of the kind.
    pub fn name(&self) -> (s: &'static str)
        ensures
            s@ == self.spec_name(),
    {
        match self {
            MonsterKind::Goblin => "Goblin",
            MonsterKind::Orc => "Orc",
        }
    }

    /// The colour of the kind.
    pub fn color(&self) -> (c: Color)
        ensures
            c == self.spec_color(),
    {
        match self {
            MonsterKind::Goblin => Color { r: 128, g: 230, b: 51 },
            MonsterKind::Orc => Color { r: 230, g: 77, b: 51 },
        }
    }
}

/// Whether `e` has the name and the looks of the given kind of monster.
pub open spec fn spec_of_kind(world: &World, e: Entity, kind: MonsterKind) -> bool {
    &&& world.spec_name(e) == Some(kind.spec_name())
    &&& world.spec_renderable(e) == Some(
        Renderable { ch: kind.spec_glyph(), fg: kind.spec_color(), bg: black() },
    )
}

/// Whether `e` has the name and the looks of one of the kinds of monster.
pub open spec fn spec_of_some_kind(world: &World, e: Entity) -> bool {
    spec_of_kind(world, e, MonsterKind::Goblin) || spec_of_kind(world, e, MonsterKind::Orc)
}

/// Whether `after` is `before` with some monsters more: nobody that was
/// there has changed, every newcomer is a living monster of one of the
/// kinds, with a monster's stats, that stands on the map where its position
/// says, behind those that stood there, and nothing but the world, the
/// occupants of the map and the generator differs.
pub open spec fn spec_populated(after: &GameState, before: &GameState) -> bool {
    &&& after.world.live.len() >= before.world.live.len()
    &&& forall|e: Entity|
        e.0 < before.world.live.len() ==> #[trigger] after.world.spec_same_entity(&before.world, e)
    &&& forall|e: Entity|
        before.world.live.len() <= e.0 < after.world.live.len() ==> {
            &&& #[trigger] after.world.spec_contains(e)
            &&& after.world.spec_tags(e) == Tags {
                player: false,
                monster: true,
                item: false,
                blocks_tile: true,
            }
            &&& after.world.spec_stats(e) == Some(spec_monster_stats())
            &&& spec_of_some_kind(&after.world, e)
            &&& after.world.spec_position(e).is_some()
            &&& after.map.spec_has_entity(
                e,
                after.world.spec_position(e).unwrap().x as int,
                after.world.spec_position(e).unwrap().y as int,
            )
        }
    &&& after.map.width == before.map.width
    &&& after.map.height == before.map.height
    &&& after.map.depth == before.map.depth
    &&& after.map.tiles == before.map.tiles
    &&& after.map.sight == before.map.sight
    &&& after.map.rooms == before.map.rooms
    &&& after.map.occupants.len() == before.map.occupants.len()
    &&& forall|i: int|
        0 <= i < before.map.occupants.len() ==> before.map.occupants[i]@.is_prefix_of(
            (#[trigger] after.map.occupants[i])@,
        )
    &&& after.messages == before.messages
    &&& after.options == before.options
    &&& after.player == before.player
    &&& after.player_alive == before.player_alive
    &&& after.phase == before.phase
    &&& after.monster_turns == before.monster_turns
    &&& after.dead == before.dead
}

/// Populating is transitive, and a state is populated from itself.
pub proof fn lemma_populated_chain(a: &GameState, b: &GameState, c: &GameState)
    requires
        a.map.wf(),
        b.map.wf(),
        spec_populated(b, a),
        spec_populated(c, b),
    ensures
        spec_populated(c, a),
{
    assert forall|e: Entity| e.0 < a.world.live.len() implies #[trigger] c.world.spec_same_entity(
        &a.world,
        e,
    ) by {
        assert(b.world.spec_same_entity(&a.world, e));
        assert(c.world.spec_same_entity(&b.world, e));
    }
    assert forall|e: Entity| a.world.live.len() <= e.0 < c.world.live.len() implies {
        &&& #[trigger] c.world.spec_contains(e)
        &&& c.world.spec_tags(e) == Tags {
            player: false,
            monster: true,
            item: false,
            blocks_tile: true,
        }
        &&& c.world.spec_stats(e) == Some(spec_monster_stats())
        &&& spec_of_some_kind(&c.world, e)
        &&& c.world.spec_position(e).is_some()
        &&& c.map.spec_has_entity(
            e,
            c.world.spec_position(e).unwrap().x as int,
            c.world.spec_position(e).unwrap().y as int,
        )
    } by {
        if e.0 < b.world.live.len() {
            assert(c.world.spec_same_entity(&b.world, e));
            let p = b.world.spec_position(e).unwrap();
            lemma_stays_on_map(b, c, e, p.x as int, p.y as int);
        }
    }
}

/// Monsters that come are owed a turn from the next pass on, each once and
/// behind those that were owed one before; who was owed a turn still is,
/// nobody else has become or ceased to be a monster, and the registry of
/// the pass that is under way is untouched.
pub proof fn lemma_newcomers_take_turns(before: &GameState, after: &GameState)
    requires
        before.wf(),
        spec_populated(after, before),
    ensures
        spec_takers(after, before.world.live.len() as int) == spec_takers(
            before,
            before.world.live.len() as int,
        ),
        forall|e: Entity|
            before.world.live.len() <= e.0 < after.world.live.len() ==> #[trigger] spec_takes_turn(
                after,
                e,
            ),
        after.world.live.len() == before.world.live.len() + 1 ==> spec_takers(
            after,
            after.world.live.len() as int,
        ) == spec_takers(before, before.world.live.len() as int).push(
            Entity(before.world.live.len() as usize),
        ),
        forall|e: Entity|
            e.0 < before.world.live.len() ==> #[trigger] after.world.spec_tags(e)
                == before.world.spec_tags(e),
        after.monster_turns == before.monster_turns,
{
    let n = before.world.live.len() as int;
    assert forall|e: Entity| e.0 < n implies spec_takes_turn(after, e) == spec_takes_turn(
        before,
        e,
    ) by {
        assert(after.world.spec_same_entity(&before.world, e));
    }
    lemma_takers_same(after, before, n);
    assert forall|e: Entity| n <= e.0 < after.world.live.len() implies #[trigger] spec_takes_turn(
        after,
        e,
    ) by {
        assert(after.world.spec_contains(e));
        assert(before.world.spec_contains(before.player));
    }
    assert forall|e: Entity| e.0 < n implies #[trigger] after.world.spec_tags(e)
        == before.world.spec_tags(e) by {
        assert(after.world.spec_same_entity(&before.world, e));
    }
    if after.world.live.len() == n + 1 {
        assert(spec_takes_turn(after, Entity(n as usize)));
    }
}

/// A state is populated from itself, with nobody new.
pub proof fn lemma_populated_self(a: &GameState)
    ensures
        spec_populated(a, a),
{
}

proof fn lemma_stays_on_map(b: &GameState, c: &GameState, e: Entity, x: int, y: int)
    requires
        b.map.wf(),
        spec_populated(c, b),
        b.map.spec_has_entity(e, x, y),
    ensures
        c.map.spec_has_entity(e, x, y),
{
    let occ = b.map.spec_occupants(x, y);
    let k = choose|k: int| 0 <= k < occ.len() && (#[trigger] occ[k]).id == e;
    crate::geometry::lemma_index_bounds(x, y, b.map.width as int, b.map.height as int);
}

/// Whether the tiles that are blocked on `after` are those that are blocked
/// on `before`, and tile `pos`, which a newcomer blocks.
pub open spec fn spec_blocked_with(after: &GameMap, before: &GameMap, pos: (i32, i32)) -> bool {
    &&& forall|x: int, y: int|
        #[trigger] after.spec_is_blocked(x, y) <==> before.spec_is_blocked(x, y) || (x == pos.0
            && y == pos.1)
    &&& forall|x: int, y: int|
        #[trigger] after.spec_has_blocker(x, y) <==> before.spec_has_blocker(x, y) || (x == pos.0
            && y == pos.1)
}

/// Creates a monster of the given kind on tile `pos` of the map, which no
/// other blocks yet, and returns its identifier.
pub fn spawn_kind_at(state: &mut GameState, kind: MonsterKind, pos: (i32, i32)) -> (monster: Entity)
    requires
        old(state).wf(),
        old(state).map.spec_in_bounds(pos.0 as int, pos.1 as int),
        !old(state).map.spec_has_blocker(pos.0 as int, pos.1 as int),
    ensures
        final(state).wf(),
        monster == Entity(old(state).world.live.len() as usize),
        spec_spawned(
            &final(state).world,
            &old(state).world,
            Tags { player: false, monster: true, item: false, blocks_tile: true },
            spec_monster_stats(),
            kind.spec_name(),
            Position { x: pos.0, y: pos.1 },
            Renderable { ch: kind.spec_glyph(), fg: kind.spec_color(), bg: black() },
        ),
        spec_placed(
            &final(state).map,
            &old(state).map,
            monster,
            Position { x: pos.0, y: pos.1 },
            true,
        ),
        spec_populated(final(state), old(state)),
        spec_blocked_with(&final(state).map, &old(state).map, pos),
        final(state).rng == old(state).rng,
{
    let monster = spawn_monster(
        &mut state.world,
        &mut state.map,
        pos,
        kind.glyph(),
        String::from_str(kind.name()),
        kind.color(),
    );
    proof {
        let e = monster;
        let i = old(state).map.spec_idx(pos.0 as int, pos.1 as int);
        crate::geometry::lemma_index_bounds(
            pos.0 as int,
            pos.1 as int,
            old(state).map.width as int,
            old(state).map.height as int,
        );
        assert(state.map.spec_has_entity(e, pos.0 as int, pos.1 as int)) by {
            let row = old(state).map.occupants[i]@;
            assert(state.map.spec_occupants(pos.0 as int, pos.1 as int)[row.len() as int].id
                == e);
        }
        assert forall|o: Entity| #[trigger] state.dead@.contains(o) implies
            state.world.spec_contains(
            o,
        ) && state.world.spec_stats(o).is_some() && state.world.spec_stats(o).unwrap().hp
            <= 0 by {
            assert(state.world.spec_same_entity(&old(state).world, o));
        }
        assert forall|o: Entity|
            (#[trigger] state.world.spec_stats(o)).is_some() && state.world.spec_stats(
                o,
            ).unwrap().hp <= 0 implies state.dead@.contains(o) || (o == state.player
            && !state.player_alive) by {
            if o != e {
                assert(state.world.spec_same_entity(&old(state).world, o));
            }
        }
        assert(state.world.spec_same_entity(&old(state).world, state.player));
        assert forall|o: Entity| (#[trigger] state.world.spec_tags(o)).player implies o
            == state.player by {
            if o != e {
                assert(state.world.spec_same_entity(&old(state).world, o));
            }
        }
        assert(spec_of_kind(&state.world, e, kind));
        assert forall|x: int, y: int| #[trigger]
            state.map.spec_is_blocked(x, y) <==> old(state).map.spec_is_blocked(x, y) || (x
                == pos.0 && y == pos.1) by {
            if old(state).map.spec_in_bounds(x, y) {
                let w = old(state).map.width as int;
                let h = old(state).map.height as int;
                let j = old(state).map.spec_idx(x, y);
                crate::geometry::lemma_index_bounds(x, y, w, h);
                if j == i {
                    crate::geometry::lemma_index_injective(
                        x,
                        y,
                        pos.0 as int,
                        pos.1 as int,
                        w,
                        h,
                    );
                    let row = old(state).map.occupants[i]@;
                    assert(state.map.occupants[i]@[row.len() as int].blocks);
                } else {
                    assert(state.map.occupants[j] == old(state).map.occupants[j]);
                }
            }
        }
        assert forall|x: int, y: int| #[trigger]
            state.map.spec_has_blocker(x, y) <==> old(state).map.spec_has_blocker(x, y) || (x
                == pos.0 && y == pos.1) by {
            if old(state).map.spec_in_bounds(x, y) {
                let w = old(state).map.width as int;
                let h = old(state).map.height as int;
                let j = old(state).map.spec_idx(x, y);
                crate::geometry::lemma_index_bounds(x, y, w, h);
                if j == i {
                    crate::geometry::lemma_index_injective(x, y, pos.0 as int, pos.1 as int, w, h);
                    let row = old(state).map.occupants[i]@;
                    assert(state.map.occupants[i]@[row.len() as int].blocks);
                } else {
                    assert(state.map.occupants[j] == old(state).map.occupants[j]);
                }
            }
        }
    }
    monster
}

/// Creates a monster of a random kind on tile `pos` of the map, which no
/// other blocks yet, and returns its identifier.
pub fn spawn_random_monster_at(state: &mut GameState, pos: (i32, i32)) -> (monster: Entity)
    requires
        old(state).wf(),
        old(state).map.spec_in_bounds(pos.0 as int, pos.1 as int),
        !old(state).map.spec_has_blocker(pos.0 as int, pos.1 as int),
    ensures
        final(state).wf(),
        monster == Entity(old(state).world.live.len() as usize),
        final(state).world.live.len() == old(state).world.live.len() + 1,
        final(state).world.spec_position(monster) == Some(Position { x: pos.0, y: pos.1 }),
        final(state).world.spec_tags(monster) == (Tags {
            player: false,
            monster: true,
            item: false,
            blocks_tile: true,
        }),
        final(state).world.spec_stats(monster) == Some(spec_monster_stats()),
        spec_of_some_kind(&final(state).world, monster),
        spec_populated(final(state), old(state)),
        spec_placed(
            &final(state).map,
            &old(state).map,
            monster,
            Position { x: pos.0, y: pos.1 },
            true,
        ),
        spec_blocked_with(&final(state).map, &old(state).map, pos),
{
    let mut kinds: Vec<MonsterKind> = Vec::new();
    kinds.push(MonsterKind::Goblin);
    kinds.push(MonsterKind::Orc);
    let choice = choose_kind(&mut state.rng, &kinds);
    let ghost drawn = *state;
    proof {
        lemma_populated_self(old(state));
    }
    let monster = spawn_kind_at(state, choice.unwrap(), pos);
    proof {
        lemma_populated_chain(old(state), &drawn, state);
    }
    monster
}

/// Whether `p` is one of `tiles`.
pub open spec fn spec_on_one_of(tiles: Seq<(i32, i32)>, p: Option<Position>) -> bool {
    exists|k: int|
        0 <= k < tiles.len() && p == Some(Position { x: (#[trigger] tiles[k]).0, y: tiles[k].1 })
}

/// Whether tile `(x, y)` is among the first `n` of `tiles`.
pub open spec fn spec_among_tiles(tiles: Seq<(i32, i32)>, n: int, x: int, y: int) -> bool {
    exists|j: int| 0 <= j < n && j < tiles.len() && (#[trigger] tiles[j]).0 == x && tiles[j].1 == y
}

/// Whether the `k`-th of `tiles` gets a monster when monsters are spawned
/// on the tiles one after the other: it is a tile of `map` that no
/// occupant blocks, and it is none of the tiles before it, on which a
/// monster stands by the time its turn comes.
pub open spec fn spec_gets_monster(map: &GameMap, tiles: Seq<(i32, i32)>, k: int) -> bool {
    &&& map.spec_in_bounds(tiles[k].0 as int, tiles[k].1 as int)
    &&& !map.spec_has_blocker(tiles[k].0 as int, tiles[k].1 as int)
    &&& !spec_among_tiles(tiles, k, tiles[k].0 as int, tiles[k].1 as int)
}

/// How many of the first `n` of `tiles` get a monster.
pub open spec fn spec_spawn_count(map: &GameMap, tiles: Seq<(i32, i32)>, n: int) -> int
    decreases n,
{
    if n <= 0 {
        0
    } else if spec_gets_monster(map, tiles, n - 1) {
        spec_spawn_count(map, tiles, n - 1) + 1
    } else {
        spec_spawn_count(map, tiles, n - 1)
    }
}

/// No more tiles get a monster than there are, and where each of them gets
/// one, as many.
pub proof fn lemma_spawn_count(map: &GameMap, tiles: Seq<(i32, i32)>, n: int)
    requires
        0 <= n,
    ensures
        0 <= spec_spawn_count(map, tiles, n) <= n,
        (forall|k: int| 0 <= k < n ==> #[trigger] spec_gets_monster(map, tiles, k))
            ==> spec_spawn_count(map, tiles, n) == n,
    decreases n,
{
    if n > 0 {
        lemma_spawn_count(map, tiles, n - 1);
    }
}

/// Whether the entities numbered from `from` up to, but not including, `to`
/// stand on tiles that differ from one another.
pub open spec fn spec_apart(world: &World, from: int, to: int) -> bool {
    forall|a: Entity, b: Entity|
        from <= a.0 < b.0 < to ==> #[trigger] world.spec_position(a)
            != #[trigger] world.spec_position(b)
}

/// Creates a monster of a random kind on each of `tiles`, one tile after
/// the other, and returns how many it created.
///
/// A tile gets a monster exactly if it is a tile of the map, no occupant
/// blocked it, and it does not occur earlier among the tiles; its kind does
/// not matter. The monsters are created in the order of their tiles, no two
/// on the same tile, and afterwards every one of the tiles is blocked.
pub fn spawn_monsters_at(state: &mut GameState, tiles: &Vec<(i32, i32)>) -> (count: usize)
    requires
        old(state).wf(),
    ensures
        final(state).wf(),
        spec_populated(final(state), old(state)),
        count == spec_spawn_count(&old(state).map, tiles@, tiles.len() as int),
        count <= tiles.len(),
        final(state).world.live.len() == old(state).world.live.len() + count,
        forall|k: int|
            0 <= k < tiles.len() && #[trigger] spec_gets_monster(&old(state).map, tiles@, k)
                ==> final(state).world.spec_position(
                Entity(
                    (old(state).world.live.len() + spec_spawn_count(
                        &old(state).map,
                        tiles@,
                        k,
                    )) as usize,
                ),
            ) == Some(Position { x: tiles[k].0, y: tiles[k].1 }),
        forall|x: int, y: int|
            #[trigger] final(state).map.spec_is_blocked(x, y) <==> old(state).map.spec_is_blocked(
                x,
                y,
            ) || spec_among_tiles(tiles@, tiles.len() as int, x, y),
        forall|x: int, y: int|
            #[trigger] final(state).map.spec_has_blocker(x, y) <==> old(
                state,
            ).map.spec_has_blocker(x, y) || (old(state).map.spec_in_bounds(x, y)
                && spec_among_tiles(tiles@, tiles.len() as int, x, y)),
        forall|e: Entity|
            old(state).world.live.len() <= e.0 < final(state).world.live.len() ==> spec_on_one_of(
                tiles@,
                #[trigger] final(state).world.spec_position(e),
            ),
        spec_apart(
            &final(state).world,
            old(state).world.live.len() as int,
            final(state).world.live.len() as int,
        ),
{
    let ghost before = *state;
    let mut count: usize = 0;
    let mut i: usize = 0;
    proof {
        lemma_populated_self(&before);
    }
    while i < tiles.len()
        invariant
            i <= tiles.len(),
            count <= i,
            before.wf(),
            state.wf(),
            spec_populated(state, &before),
            count == spec_spawn_count(&before.map, tiles@, i as int),
            state.world.live.len() == before.world.live.len() + count,
            forall|k: int|
                0 <= k < i && #[trigger] spec_gets_monster(&before.map, tiles@, k)
                    ==> state.world.spec_position(
                    Entity(
                        (before.world.live.len() + spec_spawn_count(&before.map, tiles@,
                            k)) as usize,
                    ),
                ) == Some(Position { x: tiles[k].0, y: tiles[k].1 }),
            forall|x: int, y: int|
                #[trigger] state.map.spec_is_blocked(x, y) <==> before.map.spec_is_blocked(x, y)
                    || spec_among_tiles(tiles@, i as int, x, y),
            forall|x: int, y: int|
                #[trigger] state.map.spec_has_blocker(x, y) <==> before.map.spec_has_blocker(x, y)
                    || (before.map.spec_in_bounds(x, y) && spec_among_tiles(
                    tiles@,
                    i as int,
                    x,
                    y,
                )),
            forall|e: Entity|
                before.world.live.len() <= e.0 < state.world.live.len() ==> spec_among_tiles(
                    tiles@,
                    i as int,
                    (#[trigger] state.world.spec_position(e)).unwrap().x as int,
                    state.world.spec_position(e).unwrap().y as int,
                ),
            spec_apart(
                &state.world,
                before.world.live.len() as int,
                state.world.live.len() as int,
            ),
        decreases tiles.len() - i,
    {
        let ghost cur = *state;
        let tile = tiles[i];
        let free = state.map.in_bounds(tile.0, tile.1) && !state.map.has_blocker(tile.0, tile.1);
        proof {
            assert forall|x: int, y: int| #[trigger]
                spec_among_tiles(tiles@, i + 1, x, y) <==> spec_among_tiles(tiles@, i as int, x, y)
                    || (x == tile.0 && y == tile.1) by {
                if spec_among_tiles(tiles@, i + 1, x, y) {
                    let j = choose|j: int|
                        0 <= j < i + 1 && j < tiles@.len() && (#[trigger] tiles@[j]).0 == x
                            && tiles@[j].1 == y;
                    if j < i {
                        assert(spec_among_tiles(tiles@, i as int, x, y));
                    }
                }
                if spec_among_tiles(tiles@, i as int, x, y) {
                    let j = choose|j: int|
                        0 <= j < i && j < tiles@.len() && (#[trigger] tiles@[j]).0 == x
                            && tiles@[j].1 == y;
                    assert(0 <= j < i + 1 && tiles@[j].0 == x && tiles@[j].1 == y);
                }
                if x == tile.0 && y == tile.1 {
                    assert(tiles@[i as int].0 == x && tiles@[i as int].1 == y);
                }
            }
            assert(cur.map.spec_has_blocker(tile.0 as int, tile.1 as int)
                <==> before.map.spec_has_blocker(tile.0 as int, tile.1 as int) || (
            before.map.spec_in_bounds(tile.0 as int, tile.1 as int) && spec_among_tiles(
                tiles@,
                i as int,
                tile.0 as int,
                tile.1 as int,
            )));
            assert(free == spec_gets_monster(&before.map, tiles@, i as int));
            if cur.map.spec_has_blocker(tile.0 as int, tile.1 as int) {
                if cur.map.spec_in_bounds(tile.0 as int, tile.1 as int) {
                    crate::geometry::lemma_index_bounds(
                        tile.0 as int,
                        tile.1 as int,
                        cur.map.width as int,
                        cur.map.height as int,
                    );
                }
                assert(cur.map.spec_is_blocked(tile.0 as int, tile.1 as int));
            }
        }
        if free {
            let monster = spawn_random_monster_at(state, tile);
            count = count + 1;
            proof {
                lemma_populated_chain(&before, &cur, state);
                assert forall|a: Entity, b: Entity|
                    before.world.live.len() <= a.0 < b.0
                        < state.world.live.len() implies #[trigger] state.world.spec_position(a)
                    != #[trigger] state.world.spec_position(b) by {
                    assert(state.world.spec_same_entity(&cur.world, a));
                    if b.0 < cur.world.live.len() {
                        assert(state.world.spec_same_entity(&cur.world, b));
                        assert(cur.world.spec_position(a) != cur.world.spec_position(b));
                    } else {
                        assert(b == monster);
                        assert(cur.world.spec_contains(a));
                        let p = cur.world.spec_position(a).unwrap();
                        assert(spec_among_tiles(tiles@, i as int, p.x as int, p.y as int));
                        assert(cur.map.spec_has_entity(a, p.x as int, p.y as int));
                        assert(cur.map.spec_in_bounds(p.x as int, p.y as int));
                        assert(cur.map.spec_has_blocker(p.x as int, p.y as int));
                    }
                }
            }
        }
        proof {
            assert forall|x: int, y: int| #[trigger]
                state.map.spec_is_blocked(x, y) <==> before.map.spec_is_blocked(x, y)
                    || spec_among_tiles(tiles@, i + 1, x, y) by {
                assert(cur.map.spec_is_blocked(x, y) <==> before.map.spec_is_blocked(x, y)
                    || spec_among_tiles(tiles@, i as int, x, y));
            }
            assert forall|x: int, y: int| #[trigger]
                state.map.spec_has_blocker(x, y) <==> before.map.spec_has_blocker(x, y) || (
                before.map.spec_in_bounds(x, y) && spec_among_tiles(tiles@, i + 1, x, y)) by {
                assert(cur.map.spec_has_blocker(x, y) <==> before.map.spec_has_blocker(x, y) || (
                before.map.spec_in_bounds(x, y) && spec_among_tiles(tiles@, i as int, x, y)));
            }
            assert forall|k: int|
                0 <= k < i + 1 && #[trigger] spec_gets_monster(&before.map, tiles@, k) implies
                state.world.spec_position(
                Entity(
                    (before.world.live.len() + spec_spawn_count(&before.map, tiles@, k)) as usize,
                ),
            ) == Some(Position { x: tiles[k].0, y: tiles[k].1 }) by {
                let e = Entity(
                    (before.world.live.len() + spec_spawn_count(&before.map, tiles@, k)) as usize,
                );
                if k < i {
                    lemma_spawn_count_rises(&before.map, tiles@, k, i as int);
                    assert(e.0 < cur.world.live.len());
                    assert(state.world.spec_same_entity(&cur.world, e));
                }
            }
            assert forall|e: Entity|
                before.world.live.len() <= e.0 < state.world.live.len() implies spec_among_tiles(
                tiles@,
                i + 1,
                (#[trigger] state.world.spec_position(e)).unwrap().x as int,
                state.world.spec_position(e).unwrap().y as int,
            ) by {
                if e.0 < cur.world.live.len() {
                    assert(state.world.spec_same_entity(&cur.world, e));
                }
            }
        }
        i = i + 1;
    }
    proof {
        assert forall|e: Entity|
            before.world.live.len() <= e.0 < state.world.live.len() implies spec_on_one_of(
            tiles@,
            #[trigger] state.world.spec_position(e),
        ) by {
            let p = state.world.spec_position(e).unwrap();
            assert(state.world.spec_contains(e));
            let j = choose|j: int|
                0 <= j < tiles@.len() && j < tiles@.len() && (#[trigger] tiles@[j]).0 == p.x
                    && tiles@[j].1 == p.y;
            assert(state.world.spec_position(e) == Some(
                Position { x: tiles@[j].0, y: tiles@[j].1 },
            ));
        }
    }
    count
}

/// A tile that gets a monster is counted from its own place on.
proof fn lemma_spawn_count_rises(map: &GameMap, tiles: Seq<(i32, i32)>, k: int, n: int)
    requires
        0 <= k < n,
        spec_gets_monster(map, tiles, k),
    ensures
        0 <= spec_spawn_count(map, tiles, k) < spec_spawn_count(map, tiles, n),
    decreases n - k,
{
    lemma_spawn_count(map, tiles, k);
    if n > k + 1 {
        lemma_spawn_count_rises(map, tiles, k, n - 1);
    }
}

/// Populates one room: with an even chance nobody comes, and else one to
/// three monsters of random kinds appear on tiles of the room, no two on
/// the same tile and no more than the room has tiles. Returns how many were
/// created.
///
/// The tiles are drawn from all those of the room, whatever their kind. One
/// that lies off the map, or that an occupant blocks already, gets no
/// monster.
pub fn fill_room_with_spawns(state: &mut GameState, room: &Rect) -> (count: usize)
    requires
        old(state).wf(),
    ensures
        final(state).wf(),
        spec_populated(final(state), old(state)),
        count <= 3,
        count <= room.spec_tile_count(),
        final(state).world.live.len() == old(state).world.live.len() + count,
        forall|e: Entity|
            old(state).world.live.len() <= e.0 < final(state).world.live.len()
                ==> room.spec_contains(
                (#[trigger] final(state).world.spec_position(e)).unwrap().x as int,
                final(state).world.spec_position(e).unwrap().y as int,
            ),
        spec_apart(
            &final(state).world,
            old(state).world.live.len() as int,
            final(state).world.live.len() as int,
        ),
{
    let ghost before = *state;
    let some: bool = gen_ratio(&mut state.rng, 1, 2);
    if !some {
        proof {
            lemma_populated_self(&before);
        }
        return 0;
    }
    let num: i32 = gen_range(&mut state.rng, 1, 4);
    let tiles = choose_tiles(&mut state.rng, room.iter_xy(), num as usize);
    let ghost drawn = *state;
    proof {
        lemma_populated_self(&before);
    }
    let count = spawn_monsters_at(state, &tiles);
    proof {
        lemma_populated_chain(&before, &drawn, state);
    }
    count
}

/// Whether `p` lies in one of `rooms` other than the first.
pub open spec fn spec_in_later_room(rooms: Seq<Rect>, p: Option<Position>) -> bool {
    exists|r: int|
        1 <= r < rooms.len() && p.is_some() && #[trigger] rooms[r].spec_contains(
            p.unwrap().x as int,
            p.unwrap().y as int,
        )
}

/// Populates every room of the map but the first, which is where the
/// player starts.
///
/// Which rooms get monsters, how many and of which kind is up to the
/// generator. Whatever it draws, nobody that was there changes, at most
/// three monsters come to each room, and each of them stands on a tile of
/// one of these rooms, no two that came to one room on the same tile.
pub fn fill_rooms_with_spawns(state: &mut GameState)
    requires
        old(state).wf(),
    ensures
        final(state).wf(),
        spec_populated(final(state), old(state)),
        old(state).map.rooms.len() <= 1 ==> *final(state) == *old(state),
        final(state).world.live.len() <= old(state).world.live.len()
            + 3 * old(state).map.rooms.len(),
        forall|e: Entity|
            old(state).world.live.len() <= e.0 < final(state).world.live.len()
                ==> spec_in_later_room(
                old(state).map.rooms@,
                #[trigger] final(state).world.spec_position(e),
            ),
{
    let ghost before = *state;
    let n: usize = state.map.rooms.len();
    let mut i: usize = 1;
    proof {
        lemma_populated_self(&before);
    }
    while i < n
        invariant
            1 <= i,
            i <= n || i == 1,
            n == before.map.rooms.len(),
            n <= 1 ==> *state == before,
            before.wf(),
            state.wf(),
            spec_populated(state, &before),
            state.world.live.len() <= before.world.live.len() + 3 * (i - 1),
            forall|e: Entity|
                before.world.live.len() <= e.0 < state.world.live.len() ==> spec_in_later_room(
                    before.map.rooms@,
                    #[trigger] state.world.spec_position(e),
                ),
        decreases n - i,
    {
        let ghost cur = *state;
        let room = state.map.rooms[i];
        fill_room_with_spawns(state, &room);
        proof {
            lemma_populated_chain(&before, &cur, state);
            assert forall|e: Entity|
                before.world.live.len() <= e.0 < state.world.live.len() implies spec_in_later_room(
                before.map.rooms@,
                #[trigger] state.world.spec_position(e),
            ) by {
                if e.0 < cur.world.live.len() {
                    assert(state.world.spec_same_entity(&cur.world, e));
                } else {
                    assert(state.world.spec_contains(e));
                }
            }
        }
        i = i + 1;
    }
}

} // verus!
