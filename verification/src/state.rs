//! The game state: the one context that every subsystem works on.

use vstd::prelude::*;
use crate::components::Entity;
use crate::map::GameMap;
use crate::message::Messages;
use crate::rng::RuggleRng;
use crate::spawn::{spec_player_stats, spawn_player, FOV_RANGE};
use crate::ui::Options;
use crate::world::{DeadEntities, MonsterTurns, World};

verus! {

/// Where a turn stands.
#[derive(Clone, Copy, PartialEq, Eq, Structural, Debug)]
pub enum TurnPhase {
    /// The player is to act.
    PlayerActing,
    /// The monsters that are owed a turn act one after the other.
    MonstersActing,
    /// Everybody has acted; the dead are to be swept.
    Resolved,
}

/// Every entity on the map is held by the world, stands where its position
/// says, and blocks its tile exactly if it is tagged so.
pub open spec fn spec_placement_sound(world: &World, map: &GameMap) -> bool {
    forall|i: int, k: int|
        0 <= i < map.occupants.len() && 0 <= k < map.occupants[i].len() ==> {
            let o = #[trigger] map.occupants[i][k];
            &&& world.spec_contains(o.id)
            &&& world.spec_position(o.id).is_some()
            &&& map.spec_in_bounds(
                world.spec_position(o.id).unwrap().x as int,
                world.spec_position(o.id).unwrap().y as int,
            )
            &&& map.spec_idx(
                world.spec_position(o.id).unwrap().x as int,
                world.spec_position(o.id).unwrap().y as int,
            ) == i
            &&& o.blocks == world.spec_tags(o.id).blocks_tile
        }
}

/// Every field of view covers the map.
pub open spec fn spec_fovs_fit(world: &World, map: &GameMap) -> bool {
    forall|e: Entity|
        (#[trigger] world.spec_fov(e)).is_some() ==> world.spec_fov(e).unwrap().fits(
            map.width as int,
            map.height as int,
        )
}

/// The world, the map and the singleton resources of a running game.
pub struct GameState {
    pub world: World,
    pub map: GameMap,
    pub messages: Messages,
    pub rng: RuggleRng,
    pub options: Options,
    pub player: Entity,
    pub player_alive: bool,
    pub phase: TurnPhase,
    pub monster_turns: MonsterTurns,
    pub dead: DeadEntities,
}

impl GameState {
    /// The player exists, is tagged as the player, and has a position,
    /// combat stats and a field of view.
    pub open spec fn spec_player_sound(&self) -> bool {
        &&& self.world.spec_contains(self.player)
        &&& self.world.spec_tags(self.player).player
        &&& self.world.spec_position(self.player).is_some()
        &&& self.world.spec_stats(self.player).is_some()
        &&& self.world.spec_fov(self.player).is_some()
    }

    /// Nobody but the player is tagged as the player.
    pub open spec fn spec_one_player(&self) -> bool {
        forall|e: Entity| (#[trigger] self.world.spec_tags(e)).player ==> e == self.player
    }

    /// Every entity in the dead-entity set is still held by the world, and
    /// is without hit points.
    pub open spec fn spec_dead_sound(&self) -> bool {
        forall|e: Entity|
            #[trigger] self.dead@.contains(e) ==> self.world.spec_contains(e)
                && self.world.spec_stats(e).is_some() && self.world.spec_stats(e).unwrap().hp <= 0
    }

    /// Every entity without hit points is in the dead-entity set, but for a
    /// player whose death was swept already.
    pub open spec fn spec_hp_sound(&self) -> bool {
        forall|e: Entity|
            (#[trigger] self.world.spec_stats(e)).is_some() && self.world.spec_stats(e).unwrap().hp
                <= 0 ==> self.dead@.contains(e) || (e == self.player && !self.player_alive)
    }

    /// The state is sound: each part is, and the parts agree.
    pub open spec fn wf(&self) -> bool {
        &&& self.world.wf()
        &&& self.map.wf()
        &&& self.messages.wf()
        &&& self.dead.wf()
        &&& self.spec_player_sound()
        &&& self.spec_one_player()
        &&& self.spec_dead_sound()
        &&& self.spec_hp_sound()
        &&& spec_placement_sound(&self.world, &self.map)
        &&& spec_fovs_fit(&self.world, &self.map)
    }

    /// A new game on a map of `width` by `height` wall tiles: the player
    /// stands at `(0, 0)`, nobody else exists, and the log, which keeps the
    /// `log_capacity` most recent messages, is empty.
    pub fn new(width: i32, height: i32, log_capacity: usize, options: Options,
        rng: RuggleRng) -> (s:
        GameState)
        requires
            0 < width,
            0 < height,
            width * height <= usize::MAX,
        ensures
            s.wf(),
            s.map.width == width,
            s.map.height == height,
            s.options == options,
            s.rng == rng,
            s.player == Entity(0),
            s.player_alive,
            s.phase == TurnPhase::PlayerActing,
            s.world.live@ == seq![true],
            s.world.spec_tags(s.player) == (crate::components::Tags {
                player: true,
                monster: false,
                item: false,
                blocks_tile: false,
            }),
            s.world.spec_stats(s.player) == Some(spec_player_stats()),
            s.world.spec_name(s.player) == Some("Player"@),
            s.world.spec_position(s.player) == Some(crate::components::Position { x: 0, y: 0 }),
            s.world.spec_renderable(s.player) == Some(
                crate::components::Renderable {
                    ch: '@',
                    fg: crate::ui::yellow(),
                    bg: crate::ui::black(),
                },
            ),
            s.world.spec_fov(s.player).unwrap().range == FOV_RANGE,
            s.world.spec_fov(s.player).unwrap().visible@ == Set::<(int, int)>::empty(),
            s.world.spec_fov(s.player).unwrap().seen@ == Set::<(int, int)>::empty(),
            s.map.depth == 1,
            s.map.rooms@.len() == 0,
            forall|i: int| 0 <= i < s.map.tiles.len() ==> s.map.tiles[i] == crate::map::Tile::Wall,
            s.map.spec_occupants(0, 0) == seq![
                crate::map::Occupant { id: s.player, blocks: false },
            ],
            forall|i: int| 0 < i < s.map.occupants.len() ==> (#[trigger] s.map.occupants[i]).len()
                == 0,
            s.messages@ == Seq::<Seq<char>>::empty(),
            s.messages.capacity == log_capacity,
            s.monster_turns@ == Seq::<Entity>::empty(),
            s.dead@ == Set::<Entity>::empty(),
    {
        let mut world = World::new();
        let mut map = GameMap::new(width, height);
        let player = spawn_player(&mut world, &mut map);
        let s = GameState {
            world,
            map,
            messages: Messages::new(log_capacity),
            rng,
            options,
            player,
            player_alive: true,
            phase: TurnPhase::PlayerActing,
            monster_turns: MonsterTurns::new(),
            dead: DeadEntities::new(),
        };
        proof {
            crate::geometry::lemma_index_bounds(0, 0, width as int, height as int);
        }
        s
    }
}

/// A tile of the map is blocked exactly if its kind is impassable or an
/// entity that is tagged as blocking stands on it.
pub proof fn lemma_blocked_by_kind_or_blocker(state: &GameState, x: int, y: int)
    requires
        state.wf(),
        state.map.spec_in_bounds(x, y),
    ensures
        state.map.spec_is_blocked(x, y) <==> state.map.spec_tile(x, y).spec_impassable() || exists|
            k: int,
        |
            0 <= k < state.map.spec_occupants(x, y).len() && state.world.spec_tags(
                (#[trigger] state.map.spec_occupants(x, y)[k]).id,
            ).blocks_tile,
{
    let occ = state.map.spec_occupants(x, y);
    crate::geometry::lemma_index_bounds(x, y, state.map.width as int, state.map.height as int);
}

} // verus!
