//! Exploring the dungeon: the mode at the bottom of the stack.

use vstd::prelude::*;
use crate::gamekey::{direction, pressed, spec_direction, spec_pressed, GameKey, InputEvent};
use crate::modes::game_over::GameOverMode;
use crate::modes::options_menu::{OptionsMenuMode, OptionsMenuModeResult, Selection};
use crate::modes::{Mode, ModeControl, ModeResult, ModeUpdate};
use crate::movement::{refresh_fov, spec_refreshed, spec_same_but_fovs};
use crate::state::{GameState, TurnPhase};
use crate::turn::{spec_turn, take_turn, PlayerAction};
use crate::render::{draw_scene, spec_scene};
use crate::ui::{draw_ui, spec_ops, spec_ui, MainDraw};

verus! {

/// How the dungeon was left.
#[derive(Clone, Copy, PartialEq, Eq, Structural, Debug)]
pub enum DungeonModeResult {
    Done,
}

/// The mode in which the player walks the dungeon. It holds no state of
/// its own: all it shows is in the game state.
pub struct DungeonMode {}

/// What the player asks for with `key`: a step for each of the eight
/// directions, and to wait.
pub open spec fn spec_action(key: Option<GameKey>) -> Option<PlayerAction> {
    match key {
        Some(GameKey::Wait) => Some(PlayerAction::Wait),
        Some(k) => match spec_direction(k) {
            Some(d) => Some(PlayerAction::Step { dx: d.0 as i32, dy: d.1 as i32 }),
            None => None,
        },
        None => None,
    }
}

/// What an update of the dungeon comes to.
#[derive(Clone, Copy, PartialEq, Eq, Structural, Debug)]
pub enum DungeonOutcome {
    /// Nothing for the stack to do.
    Stay,
    /// Leave the dungeon, which ends the game.
    Leave,
    /// Open the menu of the display settings.
    OpenOptions,
    /// The player asked for an action; a turn is played if it uses one up.
    Act(PlayerAction),
}

/// What an update comes to. The result of a popped mode comes first: a
/// confirmed quit leaves the dungeon, and any result leaves the input event
/// unread. Closing the window leaves as well; Cancel opens the menu.
pub open spec fn spec_outcome(input: Option<InputEvent>, pop_result: Option<ModeResult>)
    -> DungeonOutcome {
    match pop_result {
        Some(ModeResult::OptionsMenu(OptionsMenuModeResult::ReallyQuit)) => DungeonOutcome::Leave,
        Some(_) => DungeonOutcome::Stay,
        None => if input == Some(InputEvent::AppQuit) {
            DungeonOutcome::Leave
        } else if spec_pressed(input) == Some(GameKey::Cancel) {
            DungeonOutcome::OpenOptions
        } else {
            match spec_action(spec_pressed(input)) {
                Some(a) => DungeonOutcome::Act(a),
                None => DungeonOutcome::Stay,
            }
        },
    }
}

impl DungeonMode {
    /// The mode. The player looks around as it comes up, so that what the
    /// player sees is known before the first step.
    pub fn new(state: &mut GameState) -> (m: DungeonMode)
        requires
            old(state).wf(),
        ensures
            final(state).wf(),
            spec_same_but_fovs(&final(state).world, &old(state).world),
            final(state).world.spec_fov(old(state).player).is_some(),
            spec_refreshed(
                final(state).world.spec_fov(old(state).player).unwrap(),
                old(state).world.spec_fov(old(state).player).unwrap(),
                old(state).world.spec_position(old(state).player).unwrap(),
                &old(state).map.sight,
            ),
            final(state).map == old(state).map,
            final(state).messages == old(state).messages,
            final(state).player == old(state).player,
            final(state).player_alive == old(state).player_alive,
            final(state).phase == old(state).phase,
            final(state).dead == old(state).dead,
    {
        let player = state.player;
        refresh_fov(state, player);
        DungeonMode {  }
    }

    /// The calls that draw the dungeon: on the map grid of `map.0` by
    /// `map.1` cells the map and whoever is in sight, on the interface grid
    /// of `ui.0` by `ui.1` cells the status line and the most recent
    /// messages.
    pub fn draw(&self, state: &GameState, map: (i32, i32), ui: (i32, i32), active: bool) -> (d:
        MainDraw)
        requires
            state.wf(),
            0 <= map.0,
            0 <= map.1,
            0 <= ui.0,
            0 <= ui.1,
        ensures
            spec_ops(d.map@) == spec_scene(state, map.0, map.1, active),
            spec_ops(d.ui@) == spec_ui(state, ui.0, ui.1, None),
    {
        MainDraw {
            map: draw_scene(state, map.0, map.1, active),
            ui: draw_ui(state, ui.0, ui.1, None),
        }
    }

    /// Reads the player's key and plays a turn if the key asks for one.
    ///
    /// When the player is dead afterwards, the game-over screen takes the
    /// place of the dungeon.
    pub fn update(
        &mut self,
        state: &mut GameState,
        input: Option<InputEvent>,
        pop_result: &Option<ModeResult>,
    ) -> (r: (ModeControl, ModeUpdate))
        requires
            old(state).wf(),
            old(state).phase == TurnPhase::PlayerActing,
        ensures
            final(state).wf(),
            final(state).phase == TurnPhase::PlayerActing,
            *final(self) == *old(self),
            match spec_outcome(input, *pop_result) {
                DungeonOutcome::Stay => r.0 is Stay && r.1 == ModeUpdate::WaitForEvent
                    && *final(state) == *old(state),
                DungeonOutcome::Leave => r == (
                    ModeControl::Pop(ModeResult::Dungeon(DungeonModeResult::Done)),
                    ModeUpdate::Immediate,
                ) && *final(state) == *old(state),
                DungeonOutcome::OpenOptions => {
                    &&& r.0 matches ModeControl::Push(Mode::OptionsMenu(menu))
                    &&& menu.selection == Selection::MapZoom
                    &&& r.1 == ModeUpdate::Immediate
                    &&& *final(state) == *old(state)
                },
                DungeonOutcome::Act(action) => {
                    &&& exists|acted: Seq<crate::components::Entity>| #[trigger]
                        spec_turn(old(state), final(state), action, acted)
                    &&& final(state).player_alive ==> r.0 is Stay && r.1
                        == ModeUpdate::WaitForEvent
                    &&& !final(state).player_alive ==> r.1 == ModeUpdate::Immediate && (
                    r.0 matches ModeControl::Replace(Mode::GameOver(_)))
                },
            },
    {
        match pop_result {
            Some(ModeResult::OptionsMenu(OptionsMenuModeResult::ReallyQuit)) => {
                return (
                    ModeControl::Pop(ModeResult::Dungeon(DungeonModeResult::Done)),
                    ModeUpdate::Immediate,
                );
            },
            Some(_) => {
                return (ModeControl::Stay, ModeUpdate::WaitForEvent);
            },
            None => {},
        }
        match input {
            Some(InputEvent::AppQuit) => {
                return (
                    ModeControl::Pop(ModeResult::Dungeon(DungeonModeResult::Done)),
                    ModeUpdate::Immediate,
                );
            },
            _ => {},
        }
        let key = match pressed(input) {
            Some(k) => k,
            None => {
                return (ModeControl::Stay, ModeUpdate::WaitForEvent);
            },
        };
        let action = match key {
            GameKey::Cancel => {
                return (
                    ModeControl::Push(Mode::OptionsMenu(OptionsMenuMode::new())),
                    ModeUpdate::Immediate,
                );
            },
            GameKey::Wait => PlayerAction::Wait,
            _ => match direction(key) {
                Some(d) => PlayerAction::Step { dx: d.0, dy: d.1 },
                None => {
                    return (ModeControl::Stay, ModeUpdate::WaitForEvent);
                },
            },
        };
        let report = take_turn(state, action);
        if state.player_alive {
            (ModeControl::Stay, ModeUpdate::WaitForEvent)
        } else {
            (ModeControl::Replace(Mode::GameOver(GameOverMode::new())), ModeUpdate::Immediate)
        }
    }
}

} // verus!
