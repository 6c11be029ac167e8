//! The turn scheduler: the player acts, every monster that is owed a turn
//! acts once, and the dead are swept.

use vstd::prelude::*;
use crate::components::{Entity, Position};
use crate::damage::{
    apply_damage, spec_damage, spec_display_name, spec_hit_message, spec_hp_after, spec_swept,
    sweep_dead,
};
use crate::message::spec_log_add;
use crate::movement::spec_refreshed;
use crate::map::Occupant;
use crate::monster::{monster_act, spec_monster_acted};
use crate::movement::{move_entity, spec_can_move};
use crate::state::{GameState, TurnPhase};

verus! {

/// What the player asks for.
#[derive(Clone, Copy, PartialEq, Eq, Structural, Debug)]
pub enum PlayerAction {
    /// A step to the neighbouring tile in the direction `(dx, dy)`, each
    /// `-1`, `0` or `1` and not both `0`; onto a monster, it is an attack.
    Step { dx: i32, dy: i32 },
    /// Let the turn pass.
    Wait,
    /// An action that was called off before it was carried out.
    Cancelled,
}

/// Whether the player can attack `e`: it is a monster with combat stats
/// that is not among the dead.
pub open spec fn spec_attackable(state: &GameState, e: Entity) -> bool {
    &&& state.world.spec_contains(e)
    &&& state.world.spec_tags(e).monster
    &&& e != state.player
    &&& state.world.spec_stats(e).is_some()
    &&& !state.dead@.contains(e)
}

/// The first of `occupants` that the player can attack.
pub open spec fn spec_first_attackable(state: &GameState, occupants: Seq<Occupant>) -> Option<
    Entity,
>
    decreases occupants.len(),
{
    if occupants.len() == 0 {
        None
    } else if spec_attackable(state, occupants[0].id) {
        Some(occupants[0].id)
    } else {
        spec_first_attackable(state, occupants.drop_first())
    }
}

/// The tile that a step of the player in the direction `(dx, dy)` leads to.
pub open spec fn spec_step_target(state: &GameState, dx: int, dy: int) -> (int, int) {
    (
        state.world.spec_position(state.player).unwrap().x + dx,
        state.world.spec_position(state.player).unwrap().y + dy,
    )
}

/// Whether `(dx, dy)` leads to one of the eight neighbouring tiles.
pub open spec fn spec_unit_step(dx: int, dy: int) -> bool {
    -1 <= dx <= 1 && -1 <= dy <= 1 && (dx != 0 || dy != 0)
}

/// Whether `action` uses up the player's turn: waiting does, and so does a
/// step to a neighbouring tile with a monster on it or to one that is not
/// blocked. A dead player has no turn to use.
pub open spec fn spec_consumes(state: &GameState, action: PlayerAction) -> bool {
    state.player_alive && !state.dead@.contains(state.player) && match action {
        PlayerAction::Wait => true,
        PlayerAction::Cancelled => false,
        PlayerAction::Step { dx, dy } => {
            let t = spec_step_target(state, dx as int, dy as int);
            spec_unit_step(dx as int, dy as int) && (spec_first_attackable(
                state,
                state.map.spec_occupants(t.0, t.1),
            ).is_some() || spec_can_move(state, t))
        },
    }
}

/// Whether `e` is owed a turn in the monsters' pass: it is a monster that
/// the world holds and that is not among the dead.
pub open spec fn spec_takes_turn(state: &GameState, e: Entity) -> bool {
    &&& state.world.spec_contains(e)
    &&& state.world.spec_tags(e).monster
    &&& e != state.player
    &&& !state.dead@.contains(e)
}

/// The monsters among the first `n` entities that are owed a turn, in the
/// order in which they were created.
pub open spec fn spec_takers(state: &GameState, n: int) -> Seq<Entity>
    decreases n,
{
    if n <= 0 {
        Seq::empty()
    } else if spec_takes_turn(state, Entity((n - 1) as usize)) {
        spec_takers(state, n - 1).push(Entity((n - 1) as usize))
    } else {
        spec_takers(state, n - 1)
    }
}

/// Whether `m`, when its turn in the pass comes, acts: the player never
/// takes a monster's turn, and neither does what is gone or dead.
pub open spec fn spec_eligible(state: &GameState, m: Entity) -> bool {
    m != state.player && state.world.spec_contains(m) && !state.dead@.contains(m)
}

/// Those of `registry` that act in a pass that starts in `state`, in the
/// order of the registry.
pub open spec fn spec_acting(state: &GameState, registry: Seq<Entity>) -> Seq<Entity>
    decreases registry.len(),
{
    if registry.len() == 0 {
        Seq::empty()
    } else if spec_eligible(state, registry[0]) {
        seq![registry[0]] + spec_acting(state, registry.drop_first())
    } else {
        spec_acting(state, registry.drop_first())
    }
}

/// The monsters that are owed a turn are exactly the entities for which
/// `spec_takes_turn` holds, each once, in rising order of their identifiers.
pub proof fn lemma_takers(state: &GameState, n: int)
    requires
        0 <= n <= usize::MAX,
    ensures
        forall|e: Entity|
            spec_takers(state, n).contains(e) <==> e.0 < n && spec_takes_turn(state, e),
        forall|i: int, j: int|
            0 <= i < j < spec_takers(state, n).len() ==> spec_takers(state, n)[i].0 < spec_takers(
                state,
                n,
            )[j].0,
        forall|i: int| 0 <= i < spec_takers(state, n).len() ==> spec_takers(state, n)[i].0 < n,
    decreases n,
{
    if n > 0 {
        lemma_takers(state, n - 1);
        let before = spec_takers(state, n - 1);
        let last = Entity((n - 1) as usize);
        let now = spec_takers(state, n);
        assert forall|e: Entity| now.contains(e) <==> e.0 < n && spec_takes_turn(state, e) by {
            if spec_takes_turn(state, last) {
                if e.0 < n && spec_takes_turn(state, e) {
                    if e.0 < n - 1 {
                        let k = choose|k: int| 0 <= k < before.len() && before[k] == e;
                        assert(now[k] == e);
                    } else {
                        assert(now[before.len() as int] == e);
                    }
                }
            } else {
            }
        }
    }
}

/// Which monsters are owed a turn depends only on who is a living monster:
/// two states that agree on that for each of the first `n` entities owe the
/// same turns among them.
pub proof fn lemma_takers_same(a: &GameState, b: &GameState, n: int)
    requires
        forall|e: Entity| e.0 < n ==> spec_takes_turn(a, e) == spec_takes_turn(b, e),
    ensures
        spec_takers(a, n) == spec_takers(b, n),
    decreases n,
{
    if n > 0 {
        lemma_takers_same(a, b, n - 1);
    }
}

/// In a pass that starts right after the registry was filled, every
/// registered monster acts.
pub proof fn lemma_all_takers_act(state: &GameState, registry: Seq<Entity>)
    requires
        forall|i: int| 0 <= i < registry.len() ==> spec_takes_turn(state, #[trigger] registry[i]),
    ensures
        spec_acting(state, registry) == registry,
    decreases registry.len(),
{
    if registry.len() > 0 {
        let rest = registry.drop_first();
        lemma_all_takers_act(state, rest);
    }
}

/// The first monster on tile `(x, y)` that the player can attack.
pub fn first_attackable(state: &GameState, x: i32, y: i32) -> (found: Option<Entity>)
    requires
        state.wf(),
    ensures
        found == spec_first_attackable(state, state.map.spec_occupants(x as int, y as int)),
{
    if !state.map.in_bounds(x, y) {
        return None;
    }
    let ids = state.map.entities_at(x, y);
    let ghost occ = state.map.spec_occupants(x as int, y as int);
    let mut i: usize = 0;
    assert(occ.subrange(0, occ.len() as int) =~= occ);
    while i < ids.len()
        invariant
            i <= ids.len(),
            ids.len() == occ.len(),
            occ == state.map.spec_occupants(x as int, y as int),
            forall|k: int| 0 <= k < ids.len() ==> ids[k] == occ[k].id,
            spec_first_attackable(state, occ) == spec_first_attackable(
                state,
                occ.subrange(i as int, occ.len() as int),
            ),
        decreases ids.len() - i,
    {
        let e = ids[i];
        let ghost rest = occ.subrange(i as int, occ.len() as int);
        assert(rest.drop_first() =~= occ.subrange(i + 1, occ.len() as int));
        let hit: bool = state.world.contains(e) && state.world.tags(e).monster && e.0
            != state.player.0 && state.world.stats(e).is_some() && !state.dead.contains(e);
        if hit {
            return Some(e);
        }
        i = i + 1;
    }
    None
}

/// Whether `s1` is what `s0` becomes by the player's `action`: an attack on
/// the first monster on the tile stepped onto, a move onto a free tile, or
/// nothing at all.
pub open spec fn spec_player_acted(s0: &GameState, s1: &GameState, action: PlayerAction) -> bool {
    &&& s1.wf()
    &&& !spec_consumes(s0, action) ==> *s1 == *s0
    &&& action == PlayerAction::Wait ==> *s1 == *s0
    &&& action matches PlayerAction::Step { dx, dy } ==> spec_consumes(s0, action) ==> {
        let t = spec_step_target(s0, dx as int, dy as int);
        let target = spec_first_attackable(s0, s0.map.spec_occupants(t.0, t.1));
        &&& target.is_some() ==> {
            &&& s1.world.spec_stats(target.unwrap()).is_some()
            &&& s1.world.spec_stats(target.unwrap()).unwrap().hp == spec_hp_after(
                s0.world.spec_stats(target.unwrap()).unwrap().hp as int,
                s0.world.spec_stats(s0.player).unwrap().power as int,
                s0.world.spec_stats(target.unwrap()).unwrap().defense as int,
            )
            &&& s1.world.spec_stats(target.unwrap()) == Some(
                crate::components::CombatStats {
                    hp: s1.world.spec_stats(target.unwrap()).unwrap().hp,
                    ..s0.world.spec_stats(target.unwrap()).unwrap()
                },
            )
            &&& forall|o: Entity|
                o != target.unwrap() ==> #[trigger] s1.world.spec_same_entity(
                    &s0.world,
                    o,
                )
            &&& s1.world.positions == s0.world.positions
            &&& s1.world.fovs == s0.world.fovs
            &&& s1.map == s0.map
            &&& s1.dead@ == (if s1.world.spec_stats(
                target.unwrap(),
            ).unwrap().hp <= 0 {
                s0.dead@.insert(target.unwrap())
            } else {
                s0.dead@
            })
            &&& s1.messages@ == spec_log_add(
                s0.messages@,
                spec_hit_message(
                    spec_display_name(&s0.world, s0.player),
                    spec_display_name(&s0.world, target.unwrap()),
                    spec_damage(
                        s0.world.spec_stats(s0.player).unwrap().power as int,
                        s0.world.spec_stats(target.unwrap()).unwrap().defense as int,
                    ),
                ),
                s0.messages.capacity as int,
            )
        }
        &&& target.is_none() ==> {
            &&& s1.world.spec_position(s0.player) == Some(
                Position { x: t.0 as i32, y: t.1 as i32 },
            )
            &&& s1.world.spec_fov(s0.player).is_some()
            &&& spec_refreshed(
                s1.world.spec_fov(s0.player).unwrap(),
                s0.world.spec_fov(s0.player).unwrap(),
                Position { x: t.0 as i32, y: t.1 as i32 },
                &s0.map.sight,
            )
            &&& forall|o: Entity|
                o != s0.player ==> #[trigger] s1.world.spec_same_entity(
                    &s0.world,
                    o,
                )
            &&& forall|i: int, o: Occupant|
                0 <= i < s0.map.occupants.len() ==> (#[trigger] s1.map.occupants[i]@.contains(o)
                    <==> (s0.map.occupants[i]@.contains(o)
                    && o.id != s0.player) || (i == s0.map.spec_idx(t.0, t.1)
                    && o == Occupant {
                    id: s0.player,
                    blocks: s0.world.spec_tags(s0.player).blocks_tile,
                }))
            &&& s1.world.stats == s0.world.stats
            &&& s1.dead == s0.dead
            &&& s1.messages == s0.messages
        }
    }
    &&& s1.world.live == s0.world.live
    &&& s1.world.tags == s0.world.tags
    &&& s1.map.width == s0.map.width
    &&& s1.map.height == s0.map.height
    &&& s1.map.depth == s0.map.depth
    &&& s1.map.tiles == s0.map.tiles
    &&& s1.map.sight == s0.map.sight
    &&& s1.map.rooms == s0.map.rooms
    &&& s1.player == s0.player
    &&& s1.player_alive == s0.player_alive
    &&& s1.phase == s0.phase
    &&& s1.monster_turns == s0.monster_turns
    &&& s1.rng == s0.rng
    &&& s1.options == s0.options
    &&& forall|o: Entity| s0.dead@.contains(o) ==> #[trigger] s1.dead@.contains(o)
}

/// Carries out the player's action and says whether it used up the turn.
///
/// A step onto a tile with a monster attacks the first monster there with
/// the player's power; a step onto a free tile moves the player; a step
/// against anything else, a cancelled action, and any action of a dead
/// player change nothing and use up no turn.
pub fn player_act(state: &mut GameState, action: PlayerAction) -> (consumed: bool)
    requires
        old(state).wf(),
    ensures
        final(state).wf(),
        consumed == spec_consumes(old(state), action),
        spec_player_acted(old(state), final(state), action),
{
    if !state.player_alive || state.dead.contains(state.player) {
        return false;
    }
    match action {
        PlayerAction::Wait => true,
        PlayerAction::Cancelled => false,
        PlayerAction::Step { dx, dy } => {
            if dx < -1 || dx > 1 || dy < -1 || dy > 1 || (dx == 0 && dy == 0) {
                return false;
            }
            let player = state.player;
            let pos = state.world.position(player).unwrap();
            let tx: i64 = pos.x as i64 + dx as i64;
            let ty: i64 = pos.y as i64 + dy as i64;
            if tx < 0 || ty < 0 || tx > 0x7fff_ffff || ty > 0x7fff_ffff {
                return false;
            }
            let x: i32 = tx as i32;
            let y: i32 = ty as i32;
            match first_attackable(state, x, y) {
                Some(monster) => {
                    let power: i32 = state.world.stats(player).unwrap().power;
                    proof {
                        lemma_first_attackable(state, state.map.spec_occupants(x as int, y as int));
                    }
                    apply_damage(state, player, monster, power);
                    true
                },
                None => move_entity(state, player, (x, y)),
            }
        },
    }
}

/// What `spec_first_attackable` finds can be attacked.
pub proof fn lemma_first_attackable(state: &GameState, occupants: Seq<Occupant>)
    ensures
        spec_first_attackable(state, occupants).is_some() ==> spec_attackable(
            state,
            spec_first_attackable(state, occupants).unwrap(),
        ),
    decreases occupants.len(),
{
    if occupants.len() > 0 && !spec_attackable(state, occupants[0].id) {
        lemma_first_attackable(state, occupants.drop_first());
    }
}

/// The monsters that are owed a turn, in the order in which they were
/// created.
pub fn snapshot_monsters(state: &GameState) -> (v: Vec<Entity>)
    requires
        state.wf(),
    ensures
        v@ == spec_takers(state, state.world.live.len() as int),
        forall|i: int| 0 <= i < v.len() ==> spec_takes_turn(state, #[trigger] v[i]),
{
    let n: usize = state.world.len();
    let mut v: Vec<Entity> = Vec::new();
    let mut i: usize = 0;
    while i < n
        invariant
            i <= n,
            n == state.world.live.len(),
            state.wf(),
            v@ == spec_takers(state, i as int),
            forall|k: int| 0 <= k < v.len() ==> spec_takes_turn(state, #[trigger] v[k]),
        decreases n - i,
    {
        let e = Entity(i);
        if state.world.contains(e) && state.world.tags(e).monster && i != state.player.0
            && !state.dead.contains(e) {
            v.push(e);
        }
        i = i + 1;
    }
    v
}

/// Fills the registry with the monsters that are owed a turn and opens the
/// monsters' pass.
pub fn begin_monsters(state: &mut GameState)
    requires
        old(state).wf(),
    ensures
        final(state).wf(),
        final(state).phase == TurnPhase::MonstersActing,
        final(state).monster_turns@ == spec_takers(old(state), old(state).world.live.len() as int),
        forall|i: int|
            0 <= i < final(state).monster_turns@.len() ==> spec_takes_turn(
                old(state),
                #[trigger] final(state).monster_turns@[i],
            ),
        final(state).world == old(state).world,
        final(state).map == old(state).map,
        final(state).messages == old(state).messages,
        final(state).rng == old(state).rng,
        final(state).options == old(state).options,
        final(state).player == old(state).player,
        final(state).player_alive == old(state).player_alive,
        final(state).dead == old(state).dead,
{
    let queue = snapshot_monsters(state);
    state.monster_turns.queue = queue;
    state.phase = TurnPhase::MonstersActing;
}

/// Whether a pass over `registry` takes the state from `s0` to `s1`, with
/// `acted` the monsters that acted, in the order in which they did.
///
/// The monsters of the registry are taken one after the other. One that is
/// gone or among the dead when it is taken, as the state then is, is passed
/// over; every other one acts.
pub open spec fn spec_pass(s0: &GameState, s1: &GameState, registry: Seq<Entity>,
    acted: Seq<Entity>)
    -> bool
    decreases registry.len(),
{
    if registry.len() == 0 {
        *s1 == *s0 && acted.len() == 0
    } else if spec_eligible(s0, registry[0]) {
        &&& acted.len() >= 1
        &&& acted[0] == registry[0]
        &&& exists|mid: GameState|
            #[trigger] spec_monster_acted(s0, &mid, registry[0]) && spec_pass(
                &mid,
                s1,
                registry.drop_first(),
                acted.drop_first(),
            )
    } else {
        spec_pass(s0, s1, registry.drop_first(), acted)
    }
}

/// The state with another phase.
pub open spec fn spec_in_phase(s: GameState, phase: TurnPhase) -> GameState {
    GameState { phase, ..s }
}

/// The state as the monsters' pass finds it: the registry is taken out, the
/// phase is that of the monsters.
pub open spec fn spec_pass_start(s: GameState, emptied: crate::world::MonsterTurns) -> GameState {
    GameState { monster_turns: emptied, phase: TurnPhase::MonstersActing, ..s }
}

/// Whether a turn with the states `a`, after the player's action, and `c`,
/// after the monsters' pass, takes the game from `s0` to `s1`.
pub open spec fn spec_turn_chain(
    s0: &GameState,
    a: &GameState,
    c: &GameState,
    s1: &GameState,
    action: PlayerAction,
    acted: Seq<Entity>,
) -> bool {
    &&& spec_player_acted(s0, a, action)
    &&& spec_pass(
        &spec_pass_start(*a, c.monster_turns),
        &spec_in_phase(*c, TurnPhase::MonstersActing),
        spec_takers(a, a.world.live.len() as int),
        acted,
    )
    &&& c.monster_turns@.len() == 0
    &&& spec_swept(c, &spec_in_phase(*s1, c.phase))
    &&& s1.phase == TurnPhase::PlayerActing
}

/// Whether a turn takes the game from `s0` to `s1`, with `acted` the
/// monsters that acted: an action that uses up no turn changes nothing;
/// any other is carried out, every monster that is alive after it has its
/// turn in the order of creation, and the dead are swept.
pub open spec fn spec_turn(s0: &GameState, s1: &GameState, action: PlayerAction, acted: Seq<Entity>)
    -> bool {
    if spec_consumes(s0, action) {
        exists|a: GameState, c: GameState| #[trigger] spec_turn_chain(s0, &a, &c, s1, action, acted)
    } else {
        *s1 == *s0 && acted.len() == 0
    }
}

/// Whether the player is in `after` as it was in `before`, but for hit
/// points that it may have lost.
pub open spec fn spec_player_only_hurt(
    after: &crate::world::World,
    before: &crate::world::World,
    player: Entity,
) -> bool {
    &&& after.spec_contains(player) == before.spec_contains(player)
    &&& after.spec_tags(player) == before.spec_tags(player)
    &&& after.spec_position(player) == before.spec_position(player)
    &&& after.spec_fov(player) == before.spec_fov(player)
    &&& after.spec_name(player) == before.spec_name(player)
    &&& after.spec_renderable(player) == before.spec_renderable(player)
    &&& after.spec_stats(player).is_some() == before.spec_stats(player).is_some()
    &&& before.spec_stats(player).is_some() ==> after.spec_stats(player) == Some(
        crate::components::CombatStats {
            hp: after.spec_stats(player).unwrap().hp,
            ..before.spec_stats(player).unwrap()
        },
    ) && after.spec_stats(player).unwrap().hp <= before.spec_stats(player).unwrap().hp
}

/// Who acts in a pass depends on the state in which the pass starts only by
/// who is the player, who is held by the world and who is dead.
proof fn lemma_acting_same(a: &GameState, b: &GameState, registry: Seq<Entity>)
    requires
        forall|m: Entity| spec_eligible(a, m) == spec_eligible(b, m),
    ensures
        spec_acting(a, registry) == spec_acting(b, registry),
    decreases registry.len(),
{
    if registry.len() > 0 {
        lemma_acting_same(a, b, registry.drop_first());
    }
}

/// Drains the registry: each registered monster acts once, in the order of
/// the registry, unless it is gone or among the dead when its turn comes.
/// Returns the monsters that acted, in the order in which they did.
pub fn run_monsters(state: &mut GameState) -> (acted: Vec<Entity>)
    requires
        old(state).wf(),
    ensures
        final(state).wf(),
        spec_pass(
            &GameState { monster_turns: final(state).monster_turns, ..*old(state) },
            &spec_in_phase(*final(state), old(state).phase),
            old(state).monster_turns@,
            acted@,
        ),
        acted@ == spec_acting(old(state), old(state).monster_turns@),
        final(state).monster_turns@.len() == 0,
        final(state).phase == TurnPhase::Resolved,
        spec_player_only_hurt(&final(state).world, &old(state).world, old(state).player),
        forall|o: Entity|
            !old(state).monster_turns@.contains(o) ==> #[trigger] final(state).world.spec_position(
                o,
            ) == old(state).world.spec_position(o) && final(state).world.spec_fov(o)
                == old(state).world.spec_fov(o),
        final(state).world.live == old(state).world.live,
        final(state).world.tags == old(state).world.tags,
        final(state).world.names == old(state).world.names,
        final(state).world.renderables == old(state).world.renderables,
        forall|o: Entity|
            o != old(state).player ==> #[trigger] final(state).world.spec_stats(o)
                == old(state).world.spec_stats(o),
        forall|o: Entity|
            #[trigger] final(state).dead@.contains(o) <==> old(state).dead@.contains(o) || (o
                == old(state).player && final(state).dead@.contains(o)),
        final(state).map.width == old(state).map.width,
        final(state).map.height == old(state).map.height,
        final(state).map.depth == old(state).map.depth,
        final(state).map.tiles == old(state).map.tiles,
        final(state).map.sight == old(state).map.sight,
        final(state).map.rooms == old(state).map.rooms,
        final(state).messages.capacity == old(state).messages.capacity,
        final(state).rng == old(state).rng,
        final(state).options == old(state).options,
        final(state).player == old(state).player,
        final(state).player_alive == old(state).player_alive,
{
    let ghost before = *state;
    let mut registry: Vec<Entity> = Vec::new();
    std::mem::swap(&mut registry, &mut state.monster_turns.queue);
    let ghost start = *state;
    let mut acted: Vec<Entity> = Vec::new();
    let mut i: usize = 0;
    proof {
        assert(registry@.subrange(0, registry@.len() as int) =~= registry@);
    }
    while i < registry.len()
        invariant
            i <= registry.len(),
            registry@ == before.monster_turns@,
            before.wf(),
            state.wf(),
            start == (GameState { monster_turns: state.monster_turns, ..before }),
            state.monster_turns == start.monster_turns,
            state.monster_turns@.len() == 0,
            state.phase == start.phase,
            forall|end: GameState, more: Seq<Entity>| #[trigger]
                spec_pass(
                    state,
                    &end,
                    registry@.subrange(i as int, registry@.len() as int),
                    more,
                ) ==> spec_pass(&start, &end, registry@, acted@ + more),
            acted@ + spec_acting(
                &before,
                registry@.subrange(i as int, registry@.len() as int),
            ) == spec_acting(&before, registry@),
            spec_player_only_hurt(&state.world, &before.world, before.player),
            forall|o: Entity|
                !before.monster_turns@.contains(o) ==> #[trigger] state.world.spec_position(o)
                    == before.world.spec_position(o) && state.world.spec_fov(o)
                    == before.world.spec_fov(o),
            state.world.live == before.world.live,
            state.world.tags == before.world.tags,
            state.world.names == before.world.names,
            state.world.renderables == before.world.renderables,
            forall|o: Entity|
                o != before.player ==> #[trigger] state.world.spec_stats(o)
                    == before.world.spec_stats(o),
            forall|o: Entity|
                #[trigger] state.dead@.contains(o) <==> before.dead@.contains(o) || (o
                    == before.player && state.dead@.contains(o)),
            state.map.width == before.map.width,
            state.map.height == before.map.height,
            state.map.depth == before.map.depth,
            state.map.tiles == before.map.tiles,
            state.map.sight == before.map.sight,
            state.map.rooms == before.map.rooms,
            state.messages.capacity == before.messages.capacity,
            state.rng == before.rng,
            state.options == before.options,
            state.player == before.player,
            state.player_alive == before.player_alive,
        decreases registry.len() - i,
    {
        let ghost rest = registry@.subrange(i as int, registry@.len() as int);
        let ghost later = registry@.subrange(i + 1, registry@.len() as int);
        let ghost acted0 = acted@;
        let ghost cur = *state;
        let m = registry[i];
        proof {
            assert(rest.drop_first() =~= later);
        }
        let eligible: bool = m.0 != state.player.0 && state.world.contains(m)
            && !state.dead.contains(m);
        if eligible {
            monster_act(state, m);
            acted.push(m);
            proof {
                assert forall|end: GameState, more: Seq<Entity>| #[trigger]
                    spec_pass(state, &end, later, more) implies spec_pass(
                    &start,
                    &end,
                    registry@,
                    acted@ + more,
                ) by {
                    let all = seq![m] + more;
                    assert(all.drop_first() =~= more);
                    assert(spec_pass(&cur, &end, rest, all));
                    assert(acted0 + all =~= acted@ + more);
                }
            }
        } else {
            proof {
                assert forall|end: GameState, more: Seq<Entity>| #[trigger]
                    spec_pass(state, &end, later, more) implies spec_pass(
                    &start,
                    &end,
                    registry@,
                    acted@ + more,
                ) by {
                    assert(spec_pass(&cur, &end, rest, more));
                }
            }
        }
        i = i + 1;
    }
    proof {
        let none = registry@.subrange(registry@.len() as int, registry@.len() as int);
        assert(spec_pass(state, state, none, Seq::<Entity>::empty()));
    }
    state.phase = TurnPhase::Resolved;
    acted
}

/// Closes the turn: sweeps the dead and hands the turn back to the player.
pub fn resolve(state: &mut GameState)
    requires
        old(state).wf(),
    ensures
        final(state).wf(),
        final(state).phase == TurnPhase::PlayerActing,
        spec_swept(old(state), &spec_in_phase(*final(state), old(state).phase)),
{
    sweep_dead(state);
    let ghost swept = *state;
    state.phase = TurnPhase::PlayerActing;
}

/// What a call of `take_turn` did.
pub struct TurnReport {
    /// Whether the action used up the turn. If not, nothing happened.
    pub consumed: bool,
    /// The monsters that acted, in the order in which they did.
    pub acted: Vec<Entity>,
}

/// Plays one turn: the player's action, the monsters' pass, the sweep.
///
/// An action that uses up no turn changes nothing at all. Otherwise the
/// player acts first; every monster that is alive after that acts exactly
/// once, in the order in which the monsters were created; and the dead are
/// swept. The monsters that acted are exactly the monsters that the world
/// holds when the turn is over.
pub fn take_turn(state: &mut GameState, action: PlayerAction) -> (report: TurnReport)
    requires
        old(state).wf(),
        old(state).phase == TurnPhase::PlayerActing,
    ensures
        final(state).wf(),
        final(state).phase == TurnPhase::PlayerActing,
        report.consumed == spec_consumes(old(state), action),
        spec_turn(old(state), final(state), action, report.acted@),
        !report.consumed ==> *final(state) == *old(state) && report.acted@.len() == 0,
        report.consumed ==> {
            &&& final(state).dead@ == Set::<Entity>::empty()
            &&& final(state).monster_turns@.len() == 0
            &&& report.acted@ == spec_takers(final(state), final(state).world.live.len() as int)
            &&& forall|i: int|
                0 <= i < report.acted@.len() ==> spec_takes_turn(
                    old(state),
                    #[trigger] report.acted@[i],
                )
        },
        final(state).world.live.len() == old(state).world.live.len(),
        final(state).player == old(state).player,
        final(state).rng == old(state).rng,
        final(state).options == old(state).options,
        final(state).map.tiles == old(state).map.tiles,
        final(state).map.width == old(state).map.width,
        final(state).map.height == old(state).map.height,
        !old(state).player_alive ==> !final(state).player_alive,
        final(state).world.spec_position(old(state).player) == (if report.consumed
            && action is Step && spec_first_attackable(
            old(state),
            old(state).map.spec_occupants(
                spec_step_target(old(state), action->dx as int, action->dy as int).0,
                spec_step_target(old(state), action->dx as int, action->dy as int).1,
            ),
        ).is_none() {
            Some(
                Position {
                    x: spec_step_target(old(state), action->dx as int, action->dy as int).0 as i32,
                    y: spec_step_target(old(state), action->dx as int, action->dy as int).1 as i32,
                },
            )
        } else {
            old(state).world.spec_position(old(state).player)
        }),
        final(state).world.spec_stats(old(state).player) == Some(
            crate::components::CombatStats {
                hp: final(state).world.spec_stats(old(state).player).unwrap().hp,
                ..old(state).world.spec_stats(old(state).player).unwrap()
            },
        ),
        final(state).world.spec_stats(old(state).player).unwrap().hp
            <= old(state).world.spec_stats(old(state).player).unwrap().hp,
        report.consumed ==> final(state).player_alive == (final(state).world.spec_stats(
            old(state).player,
        ).unwrap().hp > 0),
{
    let consumed = player_act(state, action);
    if !consumed {
        return TurnReport { consumed: false, acted: Vec::new() };
    }
    let ghost acted_on = *state;
    begin_monsters(state);
    let ghost begun = *state;
    let acted = run_monsters(state);
    let ghost passed = *state;
    resolve(state);
    proof {
        assert(spec_turn_chain(old(state), &acted_on, &passed, state, action, acted@));
        let player = old(state).player;
        assert(acted_on.world.spec_stats(player) == old(state).world.spec_stats(player)) by {
            if action is Step {
                let t = spec_step_target(old(state), action->dx as int, action->dy as int);
                let target = spec_first_attackable(
                    old(state),
                    old(state).map.spec_occupants(t.0, t.1),
                );
                if target.is_some() {
                    lemma_first_attackable(old(state), old(state).map.spec_occupants(t.0, t.1));
                    assert(acted_on.world.spec_same_entity(&old(state).world, player));
                }
            }
        }
        assert(state.world.spec_same_entity(&passed.world, player));
        lemma_all_takers_act(&begun, begun.monster_turns@);
        assert(acted@ == begun.monster_turns@);
        assert forall|e: Entity| spec_takes_turn(&acted_on, e) == spec_takes_turn(state, e) by {
            if e != state.player {
                if !passed.dead@.contains(e) {
                    assert(state.world.spec_same_entity(&passed.world, e));
                }
            }
        }
        lemma_takers_same(&acted_on, state, state.world.live.len() as int);
    }
    TurnReport { consumed: true, acted }
}

} // verus!
