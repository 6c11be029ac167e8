//! A dialog that asks a question and takes yes or no for an answer.

use vstd::prelude::*;
use vstd::string::*;
use crate::gamekey::{pressed, spec_pressed, GameKey, InputEvent};
use crate::modes::{ModeControl, ModeResult, ModeUpdate};
use crate::text::text_width;
use crate::ui::{
    black, clip, gray, selected_bg, spec_centered, spec_clip, spec_ops, white, DrawCmd, DrawOp,
    GridLayout, Options, Size,
};

verus! {

/// The answer to the question.
#[derive(Clone, Copy, PartialEq, Eq, Structural, Debug)]
pub enum YesNoDialogModeResult {
    Yes,
    No,
}

/// The question and the answer that is selected at the moment.
pub struct YesNoDialogMode {
    pub prompt: String,
    pub yes_selected: bool,
}

/// Whether yes is selected after `key`: Left selects yes, Right selects no.
pub open spec fn spec_select(yes_selected: bool, key: Option<GameKey>) -> bool {
    match key {
        Some(GameKey::Left) => true,
        Some(GameKey::Right) => false,
        _ => yes_selected,
    }
}

/// What the dialog asks of the stack after `key`: Confirm answers with the
/// selection, Cancel answers no, and any other key leaves the dialog open.
pub open spec fn spec_answer(yes_selected: bool, key: Option<GameKey>) -> (ModeControl,
    ModeUpdate) {
    match key {
        Some(GameKey::Confirm) => (
            ModeControl::Pop(
                ModeResult::YesNoDialog(
                    if yes_selected {
                        YesNoDialogModeResult::Yes
                    } else {
                        YesNoDialogModeResult::No
                    },
                ),
            ),
            ModeUpdate::Immediate,
        ),
        Some(GameKey::Cancel) => (
            ModeControl::Pop(ModeResult::YesNoDialog(YesNoDialogModeResult::No)),
            ModeUpdate::Immediate,
        ),
        _ => (ModeControl::Stay, ModeUpdate::WaitForEvent),
    }
}

/// The width of the two answers side by side, `[ Yes ]` and `[ No ]` with
/// two cells between them.
pub open spec fn spec_answers_width() -> int {
    15
}

/// The width of the dialog inside its frame: that of the prompt or of the
/// answers, whichever is wider.
pub open spec fn spec_dialog_width(prompt: Seq<char>) -> int {
    if spec_clip(prompt.len() as int) >= spec_answers_width() {
        spec_clip(prompt.len() as int)
    } else {
        spec_answers_width()
    }
}

/// What the dialog says: a tint that dims it when it is not active, a
/// frame, the prompt, and the two answers, the selected one highlighted.
pub open spec fn spec_draw(
    prompt: Seq<char>,
    yes_selected: bool,
    width: i32,
    height: i32,
    active: bool,
) -> Seq<DrawOp> {
    seq![
        DrawOp::Tint {
            color: if active {
                white()
            } else {
                gray()
            },
        },
        DrawOp::Frame { x: 0, y: 0, w: width, h: height, fg: white(), bg: black() },
        DrawOp::Text { x: 2, y: 2, text: prompt, fg: white(), bg: black() },
        DrawOp::Text {
            x: 2,
            y: 4,
            text: "[ Yes ]"@,
            fg: white(),
            bg: if yes_selected {
                selected_bg()
            } else {
                black()
            },
        },
        DrawOp::Text {
            x: 11,
            y: 4,
            text: "[ No ]"@,
            fg: white(),
            bg: if yes_selected {
                black()
            } else {
                selected_bg()
            },
        },
    ]
}

impl YesNoDialogMode {
    /// A dialog that asks `prompt`, with yes selected if `yes_default`.
    pub fn new(prompt: String, yes_default: bool) -> (m: YesNoDialogMode)
        ensures
            m.prompt == prompt,
            m.yes_selected == yes_default,
    {
        YesNoDialogMode { prompt, yes_selected: yes_default }
    }

    /// The layout of the grid of the dialog: as wide as the prompt or the
    /// answers with a margin of two cells on either side, seven rows high,
    /// centred in the window at the zoom of the text.
    pub fn prepare_grids(&self, options: &Options, window: Size) -> (l: GridLayout)
        ensures
            l == spec_centered(
                Size { w: (4 + spec_dialog_width(self.prompt@)) as u32, h: 7 },
                window,
                options.text_zoom,
            ),
    {
        proof {
            reveal_strlit("[ Yes ]");
            reveal_strlit("[ No ]");
        }
        let answers: i32 = clip(text_width("[ Yes ]")) + 2 + clip(text_width("[ No ]"));
        let mut widest: i32 = clip(text_width(self.prompt.as_str()));
        if widest < answers {
            widest = answers;
        }
        GridLayout {
            cells: Size { w: 4 + widest as u32, h: 7 },
            area_x: 0,
            area_y: 0,
            area_size: window,
            centered: true,
            zoom: options.text_zoom,
            clear_color: None,
        }
    }

    /// The calls that draw the dialog on a grid of `width` by `height`
    /// cells.
    pub fn draw(&self, width: i32, height: i32, active: bool) -> (cmds: Vec<DrawCmd>)
        ensures
            spec_ops(cmds@) == spec_draw(self.prompt@, self.yes_selected, width, height, active),
    {
        let mut cmds: Vec<DrawCmd> = Vec::new();
        cmds.push(
            DrawCmd::Tint {
                color: if active {
                    white()
                } else {
                    gray()
                },
            },
        );
        cmds.push(DrawCmd::Frame { x: 0, y: 0, w: width, h: height, fg: white(), bg: black() });
        cmds.push(
            DrawCmd::Text { x: 2, y: 2, text: self.prompt.clone(), fg: white(), bg: black() },
        );
        cmds.push(
            DrawCmd::Text {
                x: 2,
                y: 4,
                text: String::from_str("[ Yes ]"),
                fg: white(),
                bg: if self.yes_selected {
                    selected_bg()
                } else {
                    black()
                },
            },
        );
        cmds.push(
            DrawCmd::Text {
                x: 11,
                y: 4,
                text: String::from_str("[ No ]"),
                fg: white(),
                bg: if self.yes_selected {
                    black()
                } else {
                    selected_bg()
                },
            },
        );
        cmds
    }

    /// Moves the selection or gives the answer.
    pub fn update(&mut self, input: Option<InputEvent>) -> (r: (ModeControl, ModeUpdate))
        ensures
            final(self).prompt == old(self).prompt,
            final(self).yes_selected == spec_select(old(self).yes_selected, spec_pressed(input)),
            r == spec_answer(old(self).yes_selected, spec_pressed(input)),
    {
        match pressed(input) {
            Some(GameKey::Left) => {
                self.yes_selected = true;
                (ModeControl::Stay, ModeUpdate::WaitForEvent)
            },
            Some(GameKey::Right) => {
                self.yes_selected = false;
                (ModeControl::Stay, ModeUpdate::WaitForEvent)
            },
            Some(GameKey::Confirm) => {
                let answer = if self.yes_selected {
                    YesNoDialogModeResult::Yes
                } else {
                    YesNoDialogModeResult::No
                };
                (ModeControl::Pop(ModeResult::YesNoDialog(answer)), ModeUpdate::Immediate)
            },
            Some(GameKey::Cancel) => (
                ModeControl::Pop(ModeResult::YesNoDialog(YesNoDialogModeResult::No)),
                ModeUpdate::Immediate,
            ),
            _ => (ModeControl::Stay, ModeUpdate::WaitForEvent),
        }
    }
}

} // verus!
