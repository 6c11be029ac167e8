//! The damage and death pipeline: an attack lowers hit points at once, and
//! whoever runs out of them is removed only when the turn is over.

use vstd::prelude::*;
use vstd::string::*;
use crate::components::{CombatStats, Entity};
use crate::map::Occupant;
use crate::message::spec_log_add;
use crate::state::{spec_fovs_fit, spec_placement_sound, GameState};
use crate::text::{decimal, spec_decimal};
use crate::world::World;

verus! {

/// The hit points that an attack of strength `amount` takes from a defender
/// with the given `defense`: the difference, but at least one for any
/// attack of positive strength, and nothing otherwise.
pub open spec fn spec_damage(amount: int, defense: int) -> int {
    if amount <= 0 {
        0
    } else if amount - defense > 1 {
        amount - defense
    } else {
        1
    }
}

/// The hit points left of `hp` after that attack: never below zero.
pub open spec fn spec_hp_after(hp: int, amount: int, defense: int) -> int {
    if hp - spec_damage(amount, defense) > 0 {
        hp - spec_damage(amount, defense)
    } else {
        0
    }
}

/// The name under which `e` appears in the log.
pub open spec fn spec_display_name(world: &World, e: Entity) -> Seq<char> {
    match world.spec_name(e) {
        Some(n) => n,
        None => "Something"@,
    }
}

/// The log message for an attack that took `damage` hit points.
pub open spec fn spec_hit_message(attacker: Seq<char>, defender: Seq<char>, damage: int) -> Seq<
    char,
> {
    if damage > 0 {
        attacker + " hits "@ + defender + " for "@ + spec_decimal(damage) + " hp."@
    } else {
        attacker + " is unable to hurt "@ + defender + "."@
    }
}

/// The hit points that an attack of strength `amount` takes from a defender
/// with the given `defense`.
pub fn damage_dealt(amount: i32, defense: i32) -> (d: i32)
    requires
        0 <= defense,
    ensures
        d == spec_damage(amount as int, defense as int),
        0 <= d,
        amount > 0 ==> 1 <= d <= amount,
{
    if amount <= 0 {
        0
    } else if amount - defense > 1 {
        amount - defense
    } else {
        1
    }
}

/// The name under which `e` appears in the log.
pub fn display_name(world: &World, e: Entity) -> (s: String)
    ensures
        s@ == spec_display_name(world, e),
{
    match world.name(e) {
        Some(n) => n,
        None => String::from_str("Something"),
    }
}

/// The log message for an attack that took `damage` hit points.
pub fn hit_message(attacker: &str, defender: &str, damage: i32) -> (s: String)
    ensures
        s@ == spec_hit_message(attacker@, defender@, damage as int),
{
    let mut s = String::from_str(attacker);
    if damage > 0 {
        s.append(" hits ");
        s.append(defender);
        s.append(" for ");
        let n = decimal(damage as i64);
        s.append(n.as_str());
        s.append(" hp.");
    } else {
        s.append(" is unable to hurt ");
        s.append(defender);
        s.append(".");
    }
    s
}

/// Resolves an attack of strength `amount` by `attacker` on `defender`.
///
/// The defender loses `spec_damage` hit points, but never goes below zero,
/// and the exchange is logged. A defender left without hit points joins the
/// dead-entity set; it keeps every component and its place on the map until
/// the dead are swept.
pub fn apply_damage(state: &mut GameState, attacker: Entity, defender: Entity, amount: i32)
    requires
        old(state).wf(),
        old(state).world.spec_stats(defender).is_some(),
    ensures
        final(state).wf(),
        final(state).world.spec_stats(defender) == Some(
            CombatStats {
                hp: spec_hp_after(
                    old(state).world.spec_stats(defender).unwrap().hp as int,
                    amount as int,
                    old(state).world.spec_stats(defender).unwrap().defense as int,
                ) as i32,
                ..old(state).world.spec_stats(defender).unwrap()
            },
        ),
        0 <= final(state).world.spec_stats(defender).unwrap().hp
            <= final(state).world.spec_stats(defender).unwrap().max_hp,
        final(state).world.spec_stats(defender).unwrap().hp <= old(state).world.spec_stats(
            defender,
        ).unwrap().hp,
        final(state).world.stats@ == old(state).world.stats@.update(
            defender.0 as int,
            final(state).world.spec_stats(defender),
        ),
        final(state).world.live == old(state).world.live,
        final(state).world.tags == old(state).world.tags,
        final(state).world.positions == old(state).world.positions,
        final(state).world.fovs == old(state).world.fovs,
        final(state).world.names == old(state).world.names,
        final(state).world.renderables == old(state).world.renderables,
        final(state).map == old(state).map,
        final(state).rng == old(state).rng,
        final(state).options == old(state).options,
        final(state).player == old(state).player,
        final(state).player_alive == old(state).player_alive,
        final(state).phase == old(state).phase,
        final(state).monster_turns == old(state).monster_turns,
        final(state).dead@ == (if final(state).world.spec_stats(defender).unwrap().hp <= 0 {
            old(state).dead@.insert(defender)
        } else {
            old(state).dead@
        }),
        final(state).messages.capacity == old(state).messages.capacity,
        final(state).messages@ == spec_log_add(
            old(state).messages@,
            spec_hit_message(
                spec_display_name(&old(state).world, attacker),
                spec_display_name(&old(state).world, defender),
                spec_damage(
                    amount as int,
                    old(state).world.spec_stats(defender).unwrap().defense as int,
                ),
            ),
            old(state).messages.capacity as int,
        ),
{
    let stats = state.world.stats(defender).unwrap();
    let damage: i32 = damage_dealt(amount, stats.defense);
    let hp: i32 = if stats.hp - damage > 0 {
        stats.hp - damage
    } else {
        0
    };
    let attacker_name = display_name(&state.world, attacker);
    let defender_name = display_name(&state.world, defender);
    let text = hit_message(attacker_name.as_str(), defender_name.as_str(), damage);
    let after = CombatStats { hp, ..stats };
    state.world.set_stats(defender, Some(after));
    state.messages.add(text);
    if hp <= 0 {
        state.dead.insert(defender);
    }
    proof {
        assert forall|e: Entity| (#[trigger] state.world.spec_tags(e)).player implies e
            == state.player by {
            assert(old(state).world.spec_tags(e) == state.world.spec_tags(e));
        }
        assert forall|e: Entity|
            (#[trigger] state.world.spec_stats(e)).is_some() && state.world.spec_stats(
                e,
            ).unwrap().hp <= 0 implies state.dead@.contains(e) || (e == state.player
            && !state.player_alive) by {
            if e != defender {
                assert(old(state).world.spec_stats(e) == state.world.spec_stats(e));
            }
        }
        assert forall|e: Entity| (#[trigger] state.world.spec_fov(e)).is_some() implies
            state.world.spec_fov(
            e,
        ).unwrap().fits(state.map.width as int, state.map.height as int) by {
            assert(old(state).world.spec_fov(e) == state.world.spec_fov(e));
        }
        assert(spec_placement_sound(&state.world, &state.map));
    }
}

/// Whether `e` is among the first `n` entities of `ids`.
pub open spec fn spec_among(ids: Seq<Entity>, n: int, e: Entity) -> bool {
    exists|k: int| 0 <= k < n && k < ids.len() && #[trigger] ids[k] == e
}

/// Whether `s1` is what `s0` becomes when the dead are swept: every entity
/// of the dead-entity set has left the map; the player, if among them, has
/// the alive flag lowered; every other one is gone from the world; the set
/// is empty; and nobody else has changed.
pub open spec fn spec_swept(s0: &GameState, s1: &GameState) -> bool {
    &&& s1.wf()
    &&& s1.dead@ == Set::<Entity>::empty()
    &&& s1.world.live.len() == s0.world.live.len()
    &&& forall|e: Entity|
        !s0.dead@.contains(e) || e == s0.player ==> #[trigger] s1.world.spec_same_entity(&s0.world,
            e)
    &&& forall|e: Entity|
        s0.dead@.contains(e) && e != s0.player ==> !#[trigger] s1.world.spec_contains(e)
    &&& forall|e: Entity| s0.dead@.contains(e) ==> #[trigger] s1.map.spec_absent(e)
    &&& s1.player_alive == (s0.player_alive && !s0.dead@.contains(
        s0.player,
    ))
    &&& s1.map.width == s0.map.width
    &&& s1.map.height == s0.map.height
    &&& s1.map.depth == s0.map.depth
    &&& s1.map.tiles == s0.map.tiles
    &&& s1.map.sight == s0.map.sight
    &&& s1.map.rooms == s0.map.rooms
    &&& s1.map.occupants.len() == s0.map.occupants.len()
    &&& forall|i: int, o: Occupant|
        0 <= i < s0.map.occupants.len() ==> (#[trigger] s1.map.occupants[i]@.contains(o)
            <==> s0.map.occupants[i]@.contains(o) && !s0.dead@.contains(o.id))
    &&& s1.messages == s0.messages
    &&& s1.rng == s0.rng
    &&& s1.options == s0.options
    &&& s1.player == s0.player
    &&& s1.phase == s0.phase
    &&& s1.monster_turns == s0.monster_turns
}

/// Removes the dead once a turn is over.
///
/// Every entity of the dead-entity set leaves the map. The player, if among
/// them, stays in the world with the alive flag lowered; every other one is
/// destroyed with all its components. The set is empty afterwards, and
/// nobody else is touched.
pub fn sweep_dead(state: &mut GameState)
    requires
        old(state).wf(),
    ensures
        final(state).wf(),
        spec_swept(old(state), final(state)),
{
    let n: usize = state.dead.ids.len();
    let ghost ids = state.dead.ids@;
    let ghost before = *state;
    let mut i: usize = 0;
    while i < n
        invariant
            i <= n,
            n == ids.len(),
            before.wf(),
            before.dead.ids@ == ids,
            state.dead == before.dead,
            state.world.wf(),
            state.map.wf(),
            state.spec_player_sound(),
            spec_placement_sound(&state.world, &state.map),
            spec_fovs_fit(&state.world, &state.map),
            state.world.live.len() == before.world.live.len(),
            forall|e: Entity|
                !spec_among(ids, i as int, e) || e == before.player
                    ==> #[trigger] state.world.spec_same_entity(&before.world, e),
            forall|e: Entity|
                spec_among(ids, i as int, e) && e != before.player
                    ==> !#[trigger] state.world.spec_contains(e),
            state.player_alive == (before.player_alive && !spec_among(
                ids,
                i as int,
                before.player,
            )),
            state.map.width == before.map.width,
            state.map.height == before.map.height,
            state.map.depth == before.map.depth,
            state.map.tiles == before.map.tiles,
            state.map.sight == before.map.sight,
            state.map.rooms == before.map.rooms,
            state.map.occupants.len() == before.map.occupants.len(),
            forall|t: int, o: Occupant|
                0 <= t < before.map.occupants.len() ==> (
                #[trigger] state.map.occupants[t]@.contains(o)
                    <==> before.map.occupants[t]@.contains(o) && !spec_among(ids, i as int, o.id)),
            state.messages == before.messages,
            state.rng == before.rng,
            state.options == before.options,
            state.player == before.player,
            state.phase == before.phase,
            state.monster_turns == before.monster_turns,
        decreases n - i,
    {
        let e = state.dead.ids[i];
        let ghost cur = *state;
        match state.world.position(e) {
            Some(p) => {
                state.map.remove_entity(e, (p.x, p.y));
            },
            None => {},
        }
        if e == state.player {
            state.player_alive = false;
        } else {
            state.world.destroy(e);
        }
        proof {
            if e != state.player {
                assert(state.world.spec_same_entity(&cur.world, state.player));
            }
            assert forall|t: int, k: int|
                0 <= t < state.map.occupants.len() && 0
                    <= k < state.map.occupants[t].len() implies {
                let o = #[trigger] state.map.occupants[t][k];
                &&& state.world.spec_contains(o.id)
                &&& state.world.spec_position(o.id).is_some()
                &&& state.map.spec_in_bounds(
                    state.world.spec_position(o.id).unwrap().x as int,
                    state.world.spec_position(o.id).unwrap().y as int,
                )
                &&& state.map.spec_idx(
                    state.world.spec_position(o.id).unwrap().x as int,
                    state.world.spec_position(o.id).unwrap().y as int,
                ) == t
                &&& o.blocks == state.world.spec_tags(o.id).blocks_tile
            } by {
                let o = state.map.occupants[t][k];
                assert(state.map.occupants[t]@.contains(o));
                let k0 = choose|k0: int|
                    0 <= k0 < cur.map.occupants[t]@.len() && cur.map.occupants[t]@[k0] == o;
                if e != state.player {
                    assert(state.world.spec_same_entity(&cur.world, o.id));
                }
            }
            assert forall|x: Entity| (#[trigger] state.world.spec_fov(x)).is_some() implies
                state.world.spec_fov(
                x,
            ).unwrap().fits(state.map.width as int, state.map.height as int) by {
                if e != state.player && x != e {
                    assert(state.world.spec_same_entity(&cur.world, x));
                }
            }
            assert forall|x: Entity|
                !spec_among(ids, i + 1, x) || x
                    == before.player implies #[trigger] state.world.spec_same_entity(
                &before.world,
                x,
            ) by {
                assert(cur.world.spec_same_entity(&before.world, x));
                if e != state.player {
                    assert(state.world.spec_same_entity(&cur.world, x));
                }
            }
            assert forall|x: Entity|
                spec_among(ids, i + 1, x) && x
                    != before.player implies !#[trigger] state.world.spec_contains(
                x,
            ) by {
                if x != e {
                    if e != state.player {
                        assert(state.world.spec_same_entity(&cur.world, x));
                    }
                }
            }
        }
        i = i + 1;
    }
    state.dead = crate::world::DeadEntities::new();
    proof {
        assert forall|x: Entity| (#[trigger] state.world.spec_tags(x)).player implies x
            == state.player by {
            if spec_among(ids, n as int, x) && x != before.player {
                assert(!state.world.spec_contains(x));
            } else {
                assert(state.world.spec_same_entity(&before.world, x));
            }
        }
        assert forall|x: Entity|
            (#[trigger] state.world.spec_stats(x)).is_some() && state.world.spec_stats(
                x,
            ).unwrap().hp <= 0 implies state.dead@.contains(x) || (x == state.player
            && !state.player_alive) by {
            if spec_among(ids, n as int, x) && x != before.player {
                assert(!state.world.spec_contains(x));
            } else {
                assert(state.world.spec_same_entity(&before.world, x));
            }
        }
        assert forall|x: Entity| before.dead@.contains(x) implies #[trigger] state.map.spec_absent(
            x,
        ) by {
            assert forall|t: int, k: int|
                0 <= t < state.map.occupants.len() && 0
                    <= k < state.map.occupants[t].len() implies (
            #[trigger] state.map.occupants[t][k]).id != x by {
                let o = state.map.occupants[t][k];
                assert(state.map.occupants[t]@.contains(o));
            }
        }
    }
}

/// An entity without hit points stays in the dead-entity set, and in the
/// world, for as long as the state is sound: only the sweep takes it out.
/// The one exception is a player whose death was swept already.
pub proof fn lemma_dead_until_swept(state: &GameState, e: Entity)
    requires
        state.wf(),
        state.world.spec_stats(e).is_some(),
        state.world.spec_stats(e).unwrap().hp <= 0,
        !(e == state.player && !state.player_alive),
    ensures
        state.dead@.contains(e),
        state.world.spec_contains(e),
{
}

} // verus!
