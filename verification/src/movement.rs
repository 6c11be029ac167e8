//! Moving an entity over the map and keeping its field of view up to date.

use vstd::prelude::*;
use crate::components::{Entity, FieldOfView, Position};
use crate::geometry::lemma_index_bounds;
use crate::map::Occupant;
use crate::state::{spec_fovs_fit, spec_placement_sound, GameState};
use crate::vision::{spec_visible, update_fov};
use crate::world::World;

verus! {

/// Whether `after` is what `before` becomes when it is recomputed at `pos`
/// over the sight mask `grid`: the visible set is replaced, the seen set
/// grows by it.
pub open spec fn spec_refreshed(
    after: FieldOfView,
    before: FieldOfView,
    pos: Position,
    grid: &crate::bitgrid::BitGrid,
) -> bool {
    &&& after.range == before.range
    &&& after.visible@ == spec_visible(grid, (pos.x as int, pos.y as int), before.range as int)
    &&& after.seen@ == before.seen@.union(after.visible@)
}

/// Whether all tables of the two worlds but the fields of view are the same.
pub open spec fn spec_same_but_fovs(a: &World, b: &World) -> bool {
    &&& a.live == b.live
    &&& a.tags == b.tags
    &&& a.positions == b.positions
    &&& a.stats == b.stats
    &&& a.names == b.names
    &&& a.renderables == b.renderables
    &&& a.fovs.len() == b.fovs.len()
}

/// Recomputes the field of view of `e` at its position.
///
/// An entity without a position or without a field of view is left alone.
/// Nothing else changes.
pub fn refresh_fov(state: &mut GameState, e: Entity)
    requires
        old(state).wf(),
    ensures
        final(state).wf(),
        spec_same_but_fovs(&final(state).world, &old(state).world),
        forall|o: Entity| o != e ==> #[trigger] final(state).world.spec_fov(o)
            == old(state).world.spec_fov(o),
        old(state).world.spec_fov(e).is_none() || old(state).world.spec_position(e).is_none()
            ==> final(state).world.spec_fov(e) == old(state).world.spec_fov(e),
        old(state).world.spec_fov(e).is_some() && old(state).world.spec_position(e).is_some()
            ==> final(state).world.spec_fov(e).is_some() && spec_refreshed(
            final(state).world.spec_fov(e).unwrap(),
            old(state).world.spec_fov(e).unwrap(),
            old(state).world.spec_position(e).unwrap(),
            &old(state).map.sight,
        ),
        final(state).map == old(state).map,
        final(state).messages == old(state).messages,
        final(state).rng == old(state).rng,
        final(state).options == old(state).options,
        final(state).player == old(state).player,
        final(state).player_alive == old(state).player_alive,
        final(state).phase == old(state).phase,
        final(state).monster_turns == old(state).monster_turns,
        final(state).dead == old(state).dead,
{
    if e.0 >= state.world.fovs.len() {
        return ;
    }
    let pos = match state.world.positions[e.0] {
        Some(p) => p,
        None => {
            return ;
        },
    };
    let taken = state.world.fovs[e.0].take();
    match taken {
        Some(f) => {
            let mut fov = f;
            update_fov(&mut fov, (pos.x, pos.y), &state.map.sight);
            state.world.fovs.set(e.0, Some(fov));
        },
        None => {},
    }
    proof {
        assert forall|o: Entity| (#[trigger] state.world.spec_tags(o)).player implies o
            == state.player by {
            assert(old(state).world.spec_tags(o) == state.world.spec_tags(o));
        }
        assert forall|o: Entity| o != e implies #[trigger] state.world.spec_fov(o)
            == old(state).world.spec_fov(o) by {}
        assert forall|o: Entity|
            (#[trigger] state.world.spec_stats(o)).is_some() && state.world.spec_stats(
                o,
            ).unwrap().hp <= 0 implies state.dead@.contains(o) || (o == state.player
            && !state.player_alive) by {
            assert(old(state).world.spec_stats(o) == state.world.spec_stats(o));
        }
    }
}

/// Whether `move_entity` moves: the target tile is not blocked.
pub open spec fn spec_can_move(state: &GameState, to: (int, int)) -> bool {
    !state.map.spec_is_blocked(to.0, to.1)
}

/// Moves `e` to tile `to` and says whether it did.
///
/// Nothing moves onto a blocked tile; the state is unchanged in that case.
/// Otherwise the entity leaves the tile it stood on, stands on `to`, has
/// `to` as its position, and its field of view is recomputed there.
pub fn move_entity(state: &mut GameState, e: Entity, to: (i32, i32)) -> (moved: bool)
    requires
        old(state).wf(),
        old(state).world.spec_contains(e),
        old(state).world.spec_position(e).is_some(),
    ensures
        final(state).wf(),
        moved == spec_can_move(old(state), (to.0 as int, to.1 as int)),
        !moved ==> *final(state) == *old(state),
        moved ==> {
            &&& final(state).world.spec_position(e) == Some(Position { x: to.0, y: to.1 })
            &&& final(state).map.spec_has_entity(e, to.0 as int, to.1 as int)
            &&& forall|i: int, o: Occupant|
                0 <= i < old(state).map.occupants.len()
                    ==> (#[trigger] final(state).map.occupants[i]@.contains(o)
                    <==> (old(state).map.occupants[i]@.contains(o)
                    && o.id != e) || (i == old(state).map.spec_idx(to.0 as int, to.1 as int) && o
                    == Occupant { id: e, blocks: old(state).world.spec_tags(e).blocks_tile }))
            &&& old(state).world.spec_fov(e).is_some() ==> final(state).world.spec_fov(
                e,
            ).is_some() && spec_refreshed(
                final(state).world.spec_fov(e).unwrap(),
                old(state).world.spec_fov(e).unwrap(),
                Position { x: to.0, y: to.1 },
                &old(state).map.sight,
            )
            &&& old(state).world.spec_fov(e).is_none() ==> final(state).world.spec_fov(e).is_none()
        },
        final(state).world.live == old(state).world.live,
        final(state).world.tags == old(state).world.tags,
        final(state).world.stats == old(state).world.stats,
        final(state).world.names == old(state).world.names,
        final(state).world.renderables == old(state).world.renderables,
        forall|o: Entity|
            o != e ==> #[trigger] final(state).world.spec_same_entity(&old(state).world, o),
        final(state).map.width == old(state).map.width,
        final(state).map.height == old(state).map.height,
        final(state).map.depth == old(state).map.depth,
        final(state).map.tiles == old(state).map.tiles,
        final(state).map.sight == old(state).map.sight,
        final(state).map.rooms == old(state).map.rooms,
        final(state).messages == old(state).messages,
        final(state).rng == old(state).rng,
        final(state).options == old(state).options,
        final(state).player == old(state).player,
        final(state).player_alive == old(state).player_alive,
        final(state).phase == old(state).phase,
        final(state).monster_turns == old(state).monster_turns,
        final(state).dead == old(state).dead,
{
    if state.map.is_blocked(to.0, to.1) {
        return false;
    }
    let from = state.world.position(e).unwrap();
    let blocks: bool = state.world.tags(e).blocks_tile;
    let ghost before = *state;
    let ghost target = before.map.spec_idx(to.0 as int, to.1 as int);
    proof {
        lemma_index_bounds(
            to.0 as int,
            to.1 as int,
            before.map.width as int,
            before.map.height as int,
        );
    }
    state.map.remove_entity(e, (from.x, from.y));
    let ghost mid = state.map;
    state.map.place_entity(e, to, blocks);
    state.world.set_position(e, Some(Position { x: to.0, y: to.1 }));
    proof {
        let entry = Occupant { id: e, blocks };
        assert forall|i: int, o: Occupant| 0 <= i < before.map.occupants.len() implies (
        #[trigger] state.map.occupants[i]@.contains(o) <==> (before.map.occupants[i]@.contains(o)
            && o.id != e) || (i == target && o == entry)) by {
            if i == target {
                let row = mid.occupants[target]@;
                if row.contains(o) {
                    let k = choose|k: int| 0 <= k < row.len() && row[k] == o;
                    assert(row.push(entry)[k] == o);
                }
                if o == entry {
                    assert(row.push(entry)[row.len() as int] == o);
                }
            } else {
            }
        }
        assert(state.map.spec_has_entity(e, to.0 as int, to.1 as int)) by {
            let row = mid.occupants[target]@;
            assert(state.map.occupants[target]@[row.len() as int].id == e);
        }
        assert forall|o: Entity| (#[trigger] state.world.spec_tags(o)).player implies o
            == state.player by {
            assert(before.world.spec_tags(o) == state.world.spec_tags(o));
        }
        assert forall|o: Entity| (#[trigger] state.world.spec_fov(o)).is_some() implies
            state.world.spec_fov(
            o,
        ).unwrap().fits(state.map.width as int, state.map.height as int) by {
            assert(before.world.spec_fov(o) == state.world.spec_fov(o));
        }
        assert forall|o: Entity|
            (#[trigger] state.world.spec_stats(o)).is_some() && state.world.spec_stats(
                o,
            ).unwrap().hp <= 0 implies state.dead@.contains(o) || (o == state.player
            && !state.player_alive) by {
            assert(before.world.spec_stats(o) == state.world.spec_stats(o));
        }
    }
    refresh_fov(state, e);
    true
}

} // verus!
