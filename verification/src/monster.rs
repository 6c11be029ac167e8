//! What a monster does with its turn: attack the player when next to it,
//! approach it when it is in sight, and idle otherwise.

use vstd::prelude::*;
use crate::components::{CombatStats, Entity, Position};
use crate::damage::{apply_damage, spec_damage, spec_display_name, spec_hit_message, spec_hp_after};
use crate::map::GameMap;
use crate::message::spec_log_add;
use crate::map::Occupant;
use crate::movement::{move_entity, refresh_fov};
use crate::state::GameState;
use crate::vision::spec_visible;

verus! {

/// What a monster decides to do.
#[derive(Clone, Copy, PartialEq, Eq, Structural, Debug)]
pub enum MonsterAction {
    /// Hit the player.
    Attack,
    /// Take a step in the direction `(dx, dy)`, each `-1`, `0` or `1`.
    Approach { dx: i32, dy: i32 },
    /// Stay put.
    Idle,
}

/// `-1`, `0` or `1`, as `v` is negative, zero or positive.
pub open spec fn spec_sign(v: int) -> int {
    if v < 0 {
        -1
    } else if v > 0 {
        1
    } else {
        0
    }
}

/// The decision of a monster at `monster` about a player at `player`: idle
/// unless it perceives the player, attack from a neighbouring tile, and
/// approach from farther away.
pub open spec fn spec_decide(monster: Position, player: Position, perceives: bool)
    -> MonsterAction {
    let dx = player.x - monster.x;
    let dy = player.y - monster.y;
    if !perceives {
        MonsterAction::Idle
    } else if -1 <= dx <= 1 && -1 <= dy <= 1 {
        MonsterAction::Attack
    } else {
        MonsterAction::Approach { dx: spec_sign(dx) as i32, dy: spec_sign(dy) as i32 }
    }
}

/// The decision of a monster at `monster` about a player at `player`.
pub fn decide(monster: Position, player: Position, perceives: bool) -> (a: MonsterAction)
    ensures
        a == spec_decide(monster, player, perceives),
{
    let dx: i64 = player.x as i64 - monster.x as i64;
    let dy: i64 = player.y as i64 - monster.y as i64;
    if !perceives {
        MonsterAction::Idle
    } else if -1 <= dx && dx <= 1 && -1 <= dy && dy <= 1 {
        MonsterAction::Attack
    } else {
        let sx: i32 = if dx < 0 {
            -1
        } else if dx > 0 {
            1
        } else {
            0
        };
        let sy: i32 = if dy < 0 {
            -1
        } else if dy > 0 {
            1
        } else {
            0
        };
        MonsterAction::Approach { dx: sx, dy: sy }
    }
}

/// Whether monster `m` perceives the player: the player is alive and not
/// among the dead, and its tile is visible from where the monster stands.
pub open spec fn spec_perceives(state: &GameState, m: Entity) -> bool {
    &&& state.player_alive
    &&& !state.dead@.contains(state.player)
    &&& state.world.spec_fov(m).is_some()
    &&& state.world.spec_position(m).is_some()
    &&& spec_visible(
        &state.map.sight,
        (
            state.world.spec_position(m).unwrap().x as int,
            state.world.spec_position(m).unwrap().y as int,
        ),
        state.world.spec_fov(m).unwrap().range as int,
    ).contains(
        (
            state.world.spec_position(state.player).unwrap().x as int,
            state.world.spec_position(state.player).unwrap().y as int,
        ),
    )
}

/// What monster `m` does in `state`. A monster without a position or
/// without combat stats idles.
pub open spec fn spec_monster_action(state: &GameState, m: Entity) -> MonsterAction {
    if state.world.spec_position(m).is_some() && state.world.spec_stats(m).is_some() {
        spec_decide(
            state.world.spec_position(m).unwrap(),
            state.world.spec_position(state.player).unwrap(),
            spec_perceives(state, m),
        )
    } else {
        MonsterAction::Idle
    }
}

/// Where a step from `pos` in the direction `(dx, dy)` ends: on the tile in
/// that direction if it is free; for a diagonal step that is blocked, on the
/// free tile beside it, along the row first; and on `pos` otherwise.
pub open spec fn spec_approach_target(map: &GameMap, pos: Position, dx: int, dy: int) -> (int,
    int) {
    if !map.spec_is_blocked(pos.x + dx, pos.y + dy) {
        (pos.x + dx, pos.y + dy)
    } else if dx != 0 && dy != 0 && !map.spec_is_blocked(pos.x + dx, pos.y as int) {
        (pos.x + dx, pos.y as int)
    } else if dx != 0 && dy != 0 && !map.spec_is_blocked(pos.x as int, pos.y + dy) {
        (pos.x as int, pos.y + dy)
    } else {
        (pos.x as int, pos.y as int)
    }
}

fn tile_free(map: &GameMap, x: i64, y: i64) -> (free: bool)
    requires
        map.wf(),
    ensures
        free == !map.spec_is_blocked(x as int, y as int),
        free ==> i32::MIN <= x <= i32::MAX && i32::MIN <= y <= i32::MAX,
{
    if x < 0 || y < 0 || x > 0x7fff_ffff || y > 0x7fff_ffff {
        false
    } else {
        !map.is_blocked(x as i32, y as i32)
    }
}

/// Where a step from `pos` in the direction `(dx, dy)` ends.
pub fn approach_target(map: &GameMap, pos: Position, dx: i32, dy: i32) -> (to: (i32, i32))
    requires
        map.wf(),
        -1 <= dx <= 1,
        -1 <= dy <= 1,
    ensures
        (to.0 as int, to.1 as int) == spec_approach_target(map, pos, dx as int, dy as int),
{
    let x: i64 = pos.x as i64;
    let y: i64 = pos.y as i64;
    let nx: i64 = x + dx as i64;
    let ny: i64 = y + dy as i64;
    if tile_free(map, nx, ny) {
        (nx as i32, ny as i32)
    } else if dx != 0 && dy != 0 && tile_free(map, nx, y) {
        (nx as i32, pos.y)
    } else if dx != 0 && dy != 0 && tile_free(map, x, ny) {
        (pos.x, ny as i32)
    } else {
        (pos.x, pos.y)
    }
}

/// Whether `s1` is what `s0` becomes when monster `m` has its turn: the
/// monster looks around; if it attacks, the player takes damage of the
/// monster's power; if it approaches, it moves to where
/// `spec_approach_target` says; and nobody else changes.
pub open spec fn spec_monster_acted(s0: &GameState, s1: &GameState, m: Entity) -> bool {
    &&& s1.wf()
    &&& spec_monster_action(s0, m) == MonsterAction::Attack ==> {
        &&& s1.world.spec_stats(s0.player).is_some()
        &&& s1.world.spec_stats(s0.player).unwrap().hp == spec_hp_after(
            s0.world.spec_stats(s0.player).unwrap().hp as int,
            s0.world.spec_stats(m).unwrap().power as int,
            s0.world.spec_stats(s0.player).unwrap().defense as int,
        )
        &&& s1.world.spec_stats(s0.player) == Some(
            CombatStats {
                hp: s1.world.spec_stats(s0.player).unwrap().hp,
                ..s0.world.spec_stats(s0.player).unwrap()
            },
        )
        &&& s1.dead@ == (if s1.world.spec_stats(
            s0.player,
        ).unwrap().hp <= 0 {
            s0.dead@.insert(s0.player)
        } else {
            s0.dead@
        })
        &&& s1.world.positions == s0.world.positions
        &&& s1.map == s0.map
        &&& s1.messages@ == spec_log_add(
            s0.messages@,
            spec_hit_message(
                spec_display_name(&s0.world, m),
                spec_display_name(&s0.world, s0.player),
                spec_damage(
                    s0.world.spec_stats(m).unwrap().power as int,
                    s0.world.spec_stats(s0.player).unwrap().defense as int,
                ),
            ),
            s0.messages.capacity as int,
        )
    }
    &&& spec_monster_action(s0, m) matches MonsterAction::Approach { dx, dy } ==> {
        &&& s1.world.spec_position(m).is_some()
        &&& (
            s1.world.spec_position(m).unwrap().x as int,
            s1.world.spec_position(m).unwrap().y as int,
        ) == spec_approach_target(
            &s0.map,
            s0.world.spec_position(m).unwrap(),
            dx as int,
            dy as int,
        )
        &&& s1.world.stats == s0.world.stats
        &&& s1.messages == s0.messages
        &&& s1.dead == s0.dead
        &&& s1.world.spec_position(m) == s0.world.spec_position(m)
            ==> s1.map == s0.map
        &&& s1.world.spec_position(m) != s0.world.spec_position(m)
            ==> forall|i: int, o: Occupant|
            0 <= i < s0.map.occupants.len() ==> (#[trigger] s1.map.occupants[i]@.contains(o)
                <==> (s0.map.occupants[i]@.contains(o)
                && o.id != m) || (i == s0.map.spec_idx(
                s1.world.spec_position(m).unwrap().x as int,
                s1.world.spec_position(m).unwrap().y as int,
            ) && o == Occupant { id: m, blocks: s0.world.spec_tags(m).blocks_tile }))
    }
    &&& spec_monster_action(s0, m) == MonsterAction::Idle ==> {
        &&& s1.world.positions == s0.world.positions
        &&& s1.world.stats == s0.world.stats
        &&& s1.map == s0.map
        &&& s1.messages == s0.messages
        &&& s1.dead == s0.dead
    }
    &&& forall|o: Entity|
        o != m && o != s0.player ==> #[trigger] s1.world.spec_same_entity(
            &s0.world,
            o,
        )
    &&& forall|o: Entity|
        o != m ==> #[trigger] s1.world.spec_position(o) == s0.world.spec_position(o)
    &&& forall|o: Entity|
        o != m ==> #[trigger] s1.world.spec_fov(o) == s0.world.spec_fov(o)
    &&& s0.world.spec_fov(m).is_none() || s0.world.spec_position(m).is_none()
        || s0.world.spec_stats(m).is_none() ==> s1.world.spec_fov(m) == s0.world.spec_fov(m)
    &&& s0.world.spec_fov(m).is_some() && s0.world.spec_position(m).is_some()
        && s0.world.spec_stats(m).is_some() ==> {
        let before = s0.world.spec_fov(m).unwrap();
        let after = s1.world.spec_fov(m).unwrap();
        let from = s0.world.spec_position(m).unwrap();
        let to = s1.world.spec_position(m).unwrap();
        &&& s1.world.spec_fov(m).is_some()
        &&& s1.world.spec_position(m).is_some()
        &&& after.range == before.range
        &&& after.visible@ == spec_visible(
            &s0.map.sight,
            (to.x as int, to.y as int),
            before.range as int,
        )
        &&& after.seen@ == before.seen@.union(
            spec_visible(
                &s0.map.sight,
                (from.x as int, from.y as int),
                before.range as int,
            ),
        ).union(after.visible@)
    }
    &&& s1.world.live == s0.world.live
    &&& s1.world.tags == s0.world.tags
    &&& s1.world.names == s0.world.names
    &&& s1.world.renderables == s0.world.renderables
    &&& forall|o: Entity|
        o != s0.player ==> #[trigger] s1.world.spec_stats(o) == s0.world.spec_stats(o)
    &&& forall|o: Entity|
        #[trigger] s1.dead@.contains(o) <==> s0.dead@.contains(o) || (o
            == s0.player && s1.dead@.contains(o))
    &&& s1.map.width == s0.map.width
    &&& s1.map.height == s0.map.height
    &&& s1.map.depth == s0.map.depth
    &&& s1.map.tiles == s0.map.tiles
    &&& s1.map.sight == s0.map.sight
    &&& s1.map.rooms == s0.map.rooms
    &&& s1.messages.capacity == s0.messages.capacity
    &&& s1.rng == s0.rng
    &&& s1.options == s0.options
    &&& s1.player == s0.player
    &&& s1.player_alive == s0.player_alive
    &&& s1.phase == s0.phase
    &&& s1.monster_turns == s0.monster_turns
}

/// Gives monster `m` its turn and returns what it did.
///
/// The monster looks around first. If it attacks, the player takes damage
/// of the monster's power as `apply_damage` deals it. If it approaches, it
/// moves to `spec_approach_target`, unless that is where it stands. No
/// entity but the monster and the player changes, and nobody is destroyed.
pub fn monster_act(state: &mut GameState, m: Entity) -> (action: MonsterAction)
    requires
        old(state).wf(),
        old(state).world.spec_contains(m),
    ensures
        final(state).wf(),
        action == spec_monster_action(old(state), m),
        spec_monster_acted(old(state), final(state), m),
{
    let pos = match state.world.position(m) {
        Some(p) => p,
        None => {
            return MonsterAction::Idle;
        },
    };
    let stats = match state.world.stats(m) {
        Some(s) => s,
        None => {
            return MonsterAction::Idle;
        },
    };
    refresh_fov(state, m);
    let ghost looked = *state;
    let player = state.player;
    let player_pos = state.world.position(player).unwrap();
    let perceives: bool = state.player_alive && !state.dead.contains(player) && state.world.sees(
        m,
        player_pos.x,
        player_pos.y,
    );
    let action = decide(pos, player_pos, perceives);
    match action {
        MonsterAction::Attack => {
            apply_damage(state, m, player, stats.power);
            proof {
                assert forall|o: Entity| o != m implies #[trigger] state.world.spec_fov(o) == old(
                    state,
                ).world.spec_fov(o) by {
                    assert(looked.world.spec_fov(o) == old(state).world.spec_fov(o));
                }
            }
        },
        MonsterAction::Approach { dx, dy } => {
            let to = approach_target(&state.map, pos, dx, dy);
            if to.0 != pos.x || to.1 != pos.y {
                let moved = move_entity(state, m, to);
                proof {
                    assert forall|o: Entity| o != m implies #[trigger] state.world.spec_fov(o)
                        == old(state).world.spec_fov(o) by {
                        assert(state.world.spec_same_entity(&looked.world, o));
                    }
                    assert forall|o: Entity| o != m implies #[trigger] state.world.spec_position(o)
                        == old(state).world.spec_position(o) by {
                        assert(state.world.spec_same_entity(&looked.world, o));
                    }
                }
            }
        },
        MonsterAction::Idle => {},
    }
    proof {
        // What the monster has seen is what it saw from where it stood and
        // from where it stands.
        if old(state).world.spec_fov(m).is_some() {
            let before = old(state).world.spec_fov(m).unwrap();
            let after = state.world.spec_fov(m).unwrap();
            let from = old(state).world.spec_position(m).unwrap();
            assert(after.seen@ =~= before.seen@.union(
                spec_visible(
                    &old(state).map.sight,
                    (from.x as int, from.y as int),
                    before.range as int,
                ),
            ).union(after.visible@));
        }
    }
    action
}

} // verus!
