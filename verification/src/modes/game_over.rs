//! The screen that is shown once the player is dead.

use vstd::prelude::*;
use vstd::string::*;
use crate::gamekey::{pressed, spec_pressed, GameKey, InputEvent};
use crate::modes::{ModeControl, ModeResult, ModeUpdate};
use crate::ui::{
    black, gray, red, spec_centered, spec_ops, white, DrawCmd, DrawOp, GridLayout, Options, Size,
};

verus! {

/// How the screen was left.
#[derive(Clone, Copy, PartialEq, Eq, Structural, Debug)]
pub enum GameOverModeResult {
    Done,
}

/// The screen that is shown once the player is dead. It holds no state.
pub struct GameOverMode {}

/// What the screen asks of the stack: it closes when the window is closed
/// and on Confirm or Cancel, and stays otherwise.
pub open spec fn spec_game_over(input: Option<InputEvent>) -> (ModeControl, ModeUpdate) {
    if input == Some(InputEvent::AppQuit) || spec_pressed(input) == Some(GameKey::Confirm)
        || spec_pressed(input) == Some(GameKey::Cancel) {
        (ModeControl::Pop(ModeResult::GameOver(GameOverModeResult::Done)), ModeUpdate::Immediate)
    } else {
        (ModeControl::Stay, ModeUpdate::WaitForEvent)
    }
}

/// What the screen says: a tint that dims it when it is not active, a
/// frame, the news in red, and how to leave.
pub open spec fn spec_draw(width: i32, height: i32, active: bool) -> Seq<DrawOp> {
    seq![
        DrawOp::Tint {
            color: if active {
                white()
            } else {
                gray()
            },
        },
        DrawOp::Frame { x: 0, y: 0, w: width, h: height, fg: white(), bg: black() },
        DrawOp::Text { x: 2, y: 2, text: "You have died."@, fg: red(), bg: black() },
        DrawOp::Text { x: 2, y: 4, text: "Press Return to leave."@, fg: white(), bg: black() },
    ]
}

impl GameOverMode {
    /// The screen.
    pub fn new() -> (m: GameOverMode) {
        GameOverMode {  }
    }

    /// The layout of the grid of the screen: wide enough for its longer line
    /// with a margin of two cells on either side, seven rows high, centred
    /// in the window at the zoom of the text.
    pub fn prepare_grids(&self, options: &Options, window: Size) -> (l: GridLayout)
        ensures
            l == spec_centered(Size { w: 26, h: 7 }, window, options.text_zoom),
            l.cells.w == 4 + "Press Return to leave."@.len(),
            l.cells.w >= 4 + "You have died."@.len(),
    {
        proof {
            reveal_strlit("Press Return to leave.");
            reveal_strlit("You have died.");
        }
        GridLayout {
            cells: Size { w: 26, h: 7 },
            area_x: 0,
            area_y: 0,
            area_size: window,
            centered: true,
            zoom: options.text_zoom,
            clear_color: None,
        }
    }

    /// The calls that draw the screen on a grid of `width` by `height`
    /// cells.
    pub fn draw(&self, width: i32, height: i32, active: bool) -> (cmds: Vec<DrawCmd>)
        ensures
            spec_ops(cmds@) == spec_draw(width, height, active),
    {
        let mut cmds: Vec<DrawCmd> = Vec::new();
        cmds.push(
            DrawCmd::Tint {
                color: if active {
                    white()
                } else {
                    gray()
                },
            },
        );
        cmds.push(DrawCmd::Frame { x: 0, y: 0, w: width, h: height, fg: white(), bg: black() });
        cmds.push(
            DrawCmd::Text {
                x: 2,
                y: 2,
                text: String::from_str("You have died."),
                fg: red(),
                bg: black(),
            },
        );
        cmds.push(
            DrawCmd::Text {
                x: 2,
                y: 4,
                text: String::from_str("Press Return to leave."),
                fg: white(),
                bg: black(),
            },
        );
        cmds
    }

    /// Closes the screen or leaves it open.
    pub fn update(&mut self, input: Option<InputEvent>) -> (r: (ModeControl, ModeUpdate))
        ensures
            r == spec_game_over(input),
            *final(self) == *old(self),
    {
        match input {
            Some(InputEvent::AppQuit) => (
                ModeControl::Pop(ModeResult::GameOver(GameOverModeResult::Done)),
                ModeUpdate::Immediate,
            ),
            _ => match pressed(input) {
                Some(GameKey::Confirm) | Some(GameKey::Cancel) => (
                    ModeControl::Pop(ModeResult::GameOver(GameOverModeResult::Done)),
                    ModeUpdate::Immediate,
                ),
                _ => (ModeControl::Stay, ModeUpdate::WaitForEvent),
            },
        }
    }
}

} // verus!
