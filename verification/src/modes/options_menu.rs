//! The menu of the display settings.

use vstd::prelude::*;
use vstd::string::*;
use crate::gamekey::{pressed, spec_pressed, GameKey, InputEvent};
use crate::modes::yes_no_dialog::{YesNoDialogMode, YesNoDialogModeResult};
use crate::modes::{Mode, ModeControl, ModeResult, ModeUpdate};
use crate::text::text_width;
use crate::ui::{
    black, gray, selected_bg, spec_centered, spec_ops, white, DrawCmd, DrawOp, GridLayout, Options,
    Size,
};

verus! {

/// How the menu was left.
#[derive(Clone, Copy, PartialEq, Eq, Structural, Debug)]
pub enum OptionsMenuModeResult {
    Closed,
    ReallyQuit,
}

/// The entry of the menu that is selected.
#[derive(Clone, Copy, PartialEq, Eq, Structural, Debug)]
pub enum Selection {
    MapZoom,
    TextZoom,
    Quit,
}

/// A menu of general game options that the player can choose amongst.
pub struct OptionsMenuMode {
    pub selection: Selection,
}

/// What an update of the menu comes to.
#[derive(Clone, Copy, PartialEq, Eq, Structural, Debug)]
pub enum OptionsOutcome {
    /// Nothing for the stack to do.
    Stay,
    /// A setting changed: lay out and draw again at once.
    Redraw,
    /// Ask whether the player really wants to quit.
    AskQuit,
    /// The menu was closed.
    Close,
    /// The player confirmed to quit.
    ReallyQuit,
}

/// The selection after `key`: Up and Down go round the three entries.
pub open spec fn spec_next_selection(selection: Selection, key: Option<GameKey>) -> Selection {
    match (selection, key) {
        (Selection::MapZoom, Some(GameKey::Up)) => Selection::Quit,
        (Selection::MapZoom, Some(GameKey::Down)) => Selection::TextZoom,
        (Selection::TextZoom, Some(GameKey::Up)) => Selection::MapZoom,
        (Selection::TextZoom, Some(GameKey::Down)) => Selection::Quit,
        (Selection::Quit, Some(GameKey::Up)) => Selection::TextZoom,
        (Selection::Quit, Some(GameKey::Down)) => Selection::MapZoom,
        _ => selection,
    }
}

/// The settings after `key`: Left sets the selected zoom to 1, Right to 2.
pub open spec fn spec_next_options(options: Options, selection: Selection, key: Option<GameKey>)
    -> Options {
    match (selection, key) {
        (Selection::MapZoom, Some(GameKey::Left)) => Options { map_zoom: 1, ..options },
        (Selection::MapZoom, Some(GameKey::Right)) => Options { map_zoom: 2, ..options },
        (Selection::TextZoom, Some(GameKey::Left)) => Options { text_zoom: 1, ..options },
        (Selection::TextZoom, Some(GameKey::Right)) => Options { text_zoom: 2, ..options },
        _ => options,
    }
}

/// What a key comes to: a change of zoom asks for a redraw, Confirm on the
/// quit entry asks for confirmation, Cancel closes the menu.
pub open spec fn spec_key_outcome(selection: Selection, key: Option<GameKey>) -> OptionsOutcome {
    match (selection, key) {
        (Selection::MapZoom, Some(GameKey::Left)) => OptionsOutcome::Redraw,
        (Selection::MapZoom, Some(GameKey::Right)) => OptionsOutcome::Redraw,
        (Selection::TextZoom, Some(GameKey::Left)) => OptionsOutcome::Redraw,
        (Selection::TextZoom, Some(GameKey::Right)) => OptionsOutcome::Redraw,
        (Selection::Quit, Some(GameKey::Confirm)) => OptionsOutcome::AskQuit,
        (_, Some(GameKey::Cancel)) => OptionsOutcome::Close,
        _ => OptionsOutcome::Stay,
    }
}

/// Whether the menu takes `pop_result`. The only mode that the menu opens
/// is the dialog that asks whether to quit, so an answer of that dialog is
/// the only result that can come back to it. Any other result means that
/// the stack of modes is broken, and the menu is not to be updated with it.
pub open spec fn spec_accepts(pop_result: Option<ModeResult>) -> bool {
    match pop_result {
        Some(r) => r is YesNoDialog,
        None => true,
    }
}

/// The answer of the confirmation dialog that `pop_result` holds, if any.
pub open spec fn spec_answer(pop_result: Option<ModeResult>) -> Option<YesNoDialogModeResult> {
    match pop_result {
        Some(ModeResult::YesNoDialog(answer)) => Some(answer),
        _ => None,
    }
}

/// What an update comes to. The answer of the confirmation dialog comes
/// first and leaves the input event unread: yes quits, no goes back to the
/// menu.
pub open spec fn spec_outcome(
    selection: Selection,
    input: Option<InputEvent>,
    answer: Option<YesNoDialogModeResult>,
) -> OptionsOutcome {
    match answer {
        Some(YesNoDialogModeResult::Yes) => OptionsOutcome::ReallyQuit,
        Some(YesNoDialogModeResult::No) => OptionsOutcome::Stay,
        None => spec_key_outcome(selection, spec_pressed(input)),
    }
}

/// Whether `r` is what the menu hands to the stack for `outcome`.
pub open spec fn spec_hands(r: (ModeControl, ModeUpdate), outcome: OptionsOutcome) -> bool {
    match outcome {
        OptionsOutcome::Stay => r.0 is Stay && r.1 == ModeUpdate::WaitForEvent,
        OptionsOutcome::Redraw => r.0 is Stay && r.1 == ModeUpdate::Immediate,
        OptionsOutcome::AskQuit => {
            &&& r.0 matches ModeControl::Push(Mode::YesNoDialog(d))
            &&& d.prompt@ == "Really exit Ruggle?"@
            &&& !d.yes_selected
            &&& r.1 == ModeUpdate::Immediate
        },
        OptionsOutcome::Close => r == (
            ModeControl::Pop(ModeResult::OptionsMenu(OptionsMenuModeResult::Closed)),
            ModeUpdate::Immediate,
        ),
        OptionsOutcome::ReallyQuit => r == (
            ModeControl::Pop(ModeResult::OptionsMenu(OptionsMenuModeResult::ReallyQuit)),
            ModeUpdate::Immediate,
        ),
    }
}

/// The label of the map zoom.
pub open spec fn spec_map_zoom_label() -> Seq<char> {
    " Map zoom:"@
}

/// The label of the text zoom.
pub open spec fn spec_text_zoom_label() -> Seq<char> {
    "Text zoom:"@
}

/// The label of the entry that quits.
pub open spec fn spec_quit_label() -> Seq<char> {
    "[ Quit ]"@
}

/// How a factor of zoom is shown: in brackets when it is the one in force.
pub open spec fn spec_zoom_text(factor: u32, in_force: bool) -> Seq<char> {
    if factor == 1 {
        if in_force {
            "[1x]"@
        } else {
            " 1x "@
        }
    } else {
        if in_force {
            "[2x]"@
        } else {
            " 2x "@
        }
    }
}

/// What the row of a zoom setting says: the label, the two factors with the
/// one in force in brackets, and, if the row is selected, a highlight under
/// the factor in force.
pub open spec fn spec_zoom_row(label: Seq<char>, y: i32, zoom: u32, selected: bool) -> Seq<DrawOp> {
    let x1 = (3 + label.len()) as i32;
    let x2 = (4 + label.len() + 4) as i32;
    let texts = seq![
        DrawOp::Text { x: 2, y, text: label, fg: white(), bg: black() },
        DrawOp::Text { x: x1, y, text: spec_zoom_text(1, zoom == 1), fg: white(), bg: black() },
        DrawOp::Text { x: x2, y, text: spec_zoom_text(2, zoom == 2), fg: white(), bg: black() },
    ];
    if selected && zoom == 1 {
        texts.push(DrawOp::Shade { x: x1, y, len: 4, bg: selected_bg() })
    } else if selected && zoom == 2 {
        texts.push(DrawOp::Shade { x: x2, y, len: 4, bg: selected_bg() })
    } else {
        texts
    }
}

/// What the menu says: a tint that dims it when it is not active, a frame
/// with a title, the two zoom settings, and the entry that quits, which
/// has a highlighted background when it is selected.
pub open spec fn spec_draw(
    selection: Selection,
    options: Options,
    width: i32,
    height: i32,
    active: bool,
) -> Seq<DrawOp> {
    seq![
        DrawOp::Tint {
            color: if active {
                white()
            } else {
                gray()
            },
        },
        DrawOp::Frame { x: 0, y: 0, w: width, h: height, fg: white(), bg: black() },
        DrawOp::Text { x: 2, y: 0, text: "< Options >"@, fg: white(), bg: black() },
    ] + spec_zoom_row(spec_map_zoom_label(), 2, options.map_zoom, selection == Selection::MapZoom)
        + spec_zoom_row(
        spec_text_zoom_label(),
        3,
        options.text_zoom,
        selection == Selection::TextZoom,
    ) + seq![
        DrawOp::Text {
            x: 2,
            y: 5,
            text: spec_quit_label(),
            fg: white(),
            bg: if selection == Selection::Quit {
                selected_bg()
            } else {
                black()
            },
        },
    ]
}

fn zoom_text(factor: u32, in_force: bool) -> (s: &'static str)
    ensures
        s@ == spec_zoom_text(factor, in_force),
        s@.len() == 4,
{
    proof {
        reveal_strlit("[1x]");
        reveal_strlit(" 1x ");
        reveal_strlit("[2x]");
        reveal_strlit(" 2x ");
    }
    if factor == 1 {
        if in_force {
            "[1x]"
        } else {
            " 1x "
        }
    } else {
        if in_force {
            "[2x]"
        } else {
            " 2x "
        }
    }
}

fn zoom_row(label: &'static str, y: i32, zoom: u32, selected: bool) -> (cmds: Vec<DrawCmd>)
    requires
        label@.len() <= 100,
    ensures
        spec_ops(cmds@) == spec_zoom_row(label@, y, zoom, selected),
{
    let width: i32 = text_width(label) as i32;
    let x1: i32 = 3 + width;
    let x2: i32 = 4 + width + 4;
    let mut cmds: Vec<DrawCmd> = Vec::new();
    cmds.push(DrawCmd::Text { x: 2, y, text: String::from_str(label), fg: white(), bg: black() });
    cmds.push(
        DrawCmd::Text {
            x: x1,
            y,
            text: String::from_str(zoom_text(1, zoom == 1)),
            fg: white(),
            bg: black(),
        },
    );
    cmds.push(
        DrawCmd::Text {
            x: x2,
            y,
            text: String::from_str(zoom_text(2, zoom == 2)),
            fg: white(),
            bg: black(),
        },
    );
    if selected && zoom == 1 {
        cmds.push(DrawCmd::Shade { x: x1, y, len: 4, bg: selected_bg() });
    } else if selected && zoom == 2 {
        cmds.push(DrawCmd::Shade { x: x2, y, len: 4, bg: selected_bg() });
    }
    cmds
}

impl OptionsMenuMode {
    /// The menu, with the map zoom selected.
    pub fn new() -> (m: OptionsMenuMode)
        ensures
            m.selection == Selection::MapZoom,
    {
        OptionsMenuMode { selection: Selection::MapZoom }
    }

    /// The layout of the grid of the menu: wide enough for its widest line
    /// with a margin of two cells on either side, eight rows high, centred
    /// in the window at the zoom of the text.
    pub fn prepare_grids(&self, options: &Options, window: Size) -> (l: GridLayout)
        ensures
            l == spec_centered(Size { w: 24, h: 8 }, window, options.text_zoom),
            l.cells.w == 4 + 2 + spec_map_zoom_label().len() + 4 + 4,
            l.cells.w >= 4 + 2 + spec_text_zoom_label().len() + 4 + 4,
            l.cells.w >= 4 + spec_quit_label().len(),
    {
        proof {
            reveal_strlit(" Map zoom:");
            reveal_strlit("Text zoom:");
            reveal_strlit("[ Quit ]");
        }
        let map_row: usize = 2 + text_width(" Map zoom:") + text_width(zoom_text(1, true))
            + text_width(zoom_text(2, true));
        let text_row: usize = 2 + text_width("Text zoom:") + text_width(zoom_text(1, true))
            + text_width(zoom_text(2, true));
        let quit_row: usize = text_width("[ Quit ]");
        let mut widest: usize = map_row;
        if text_row > widest {
            widest = text_row;
        }
        if quit_row > widest {
            widest = quit_row;
        }
        GridLayout {
            cells: Size { w: 4 + widest as u32, h: 8 },
            area_x: 0,
            area_y: 0,
            area_size: window,
            centered: true,
            zoom: options.text_zoom,
            clear_color: None,
        }
    }

    /// The calls that draw the menu on a grid of `width` by `height` cells.
    pub fn draw(&self, options: &Options, width: i32, height: i32, active: bool) -> (cmds: Vec<
        DrawCmd,
    >)
        ensures
            spec_ops(cmds@) == spec_draw(self.selection, *options, width, height, active),
    {
        proof {
            reveal_strlit(" Map zoom:");
            reveal_strlit("Text zoom:");
        }
        let mut cmds: Vec<DrawCmd> = Vec::new();
        cmds.push(
            DrawCmd::Tint {
                color: if active {
                    white()
                } else {
                    gray()
                },
            },
        );
        cmds.push(DrawCmd::Frame { x: 0, y: 0, w: width, h: height, fg: white(), bg: black() });
        cmds.push(
            DrawCmd::Text {
                x: 2,
                y: 0,
                text: String::from_str("< Options >"),
                fg: white(),
                bg: black(),
            },
        );
        crate::ui::append_cmds(
            &mut cmds,
            zoom_row(" Map zoom:", 2, options.map_zoom, self.selection == Selection::MapZoom),
        );
        crate::ui::append_cmds(
            &mut cmds,
            zoom_row("Text zoom:", 3, options.text_zoom, self.selection == Selection::TextZoom),
        );
        let ghost rows = cmds@;
        cmds.push(
            DrawCmd::Text {
                x: 2,
                y: 5,
                text: String::from_str("[ Quit ]"),
                fg: white(),
                bg: if self.selection == Selection::Quit {
                    selected_bg()
                } else {
                    black()
                },
            },
        );
        proof {
            crate::ui::lemma_ops_push(rows, cmds@[cmds@.len() - 1]);
        }
        cmds
    }

    /// Moves the selection, changes a zoom, or leaves the menu.
    ///
    /// With the answer of the confirmation dialog at hand the input event
    /// is not read, and neither the selection nor the settings change. The
    /// result of any other mode must not be handed to the menu.
    pub fn update(
        &mut self,
        options: &mut Options,
        input: Option<InputEvent>,
        pop_result: &Option<ModeResult>,
    ) -> (r: (ModeControl, ModeUpdate))
        requires
            spec_accepts(*pop_result),
        ensures
            spec_hands(r, spec_outcome(old(self).selection, input, spec_answer(*pop_result))),
            pop_result.is_some() ==> *final(self) == *old(self) && *final(options) == *old(options),
            pop_result.is_none() ==> final(self).selection == spec_next_selection(
                old(self).selection,
                spec_pressed(input),
            ) && *final(options) == spec_next_options(
                *old(options),
                old(self).selection,
                spec_pressed(input),
            ),
    {
        match pop_result {
            Some(ModeResult::YesNoDialog(YesNoDialogModeResult::Yes)) => {
                return (
                    ModeControl::Pop(ModeResult::OptionsMenu(OptionsMenuModeResult::ReallyQuit)),
                    ModeUpdate::Immediate,
                );
            },
            Some(ModeResult::YesNoDialog(YesNoDialogModeResult::No)) => {
                return (ModeControl::Stay, ModeUpdate::WaitForEvent);
            },
            Some(_) => {
                return vstd::pervasive::unreached();
            },
            None => {},
        }
        let key = pressed(input);
        match (self.selection, key) {
            (Selection::MapZoom, Some(GameKey::Up)) => {
                self.selection = Selection::Quit;
            },
            (Selection::MapZoom, Some(GameKey::Down)) => {
                self.selection = Selection::TextZoom;
            },
            (Selection::MapZoom, Some(GameKey::Left)) => {
                options.map_zoom = 1;
                return (ModeControl::Stay, ModeUpdate::Immediate);
            },
            (Selection::MapZoom, Some(GameKey::Right)) => {
                options.map_zoom = 2;
                return (ModeControl::Stay, ModeUpdate::Immediate);
            },
            (Selection::TextZoom, Some(GameKey::Up)) => {
                self.selection = Selection::MapZoom;
            },
            (Selection::TextZoom, Some(GameKey::Down)) => {
                self.selection = Selection::Quit;
            },
            (Selection::TextZoom, Some(GameKey::Left)) => {
                options.text_zoom = 1;
                return (ModeControl::Stay, ModeUpdate::Immediate);
            },
            (Selection::TextZoom, Some(GameKey::Right)) => {
                options.text_zoom = 2;
                return (ModeControl::Stay, ModeUpdate::Immediate);
            },
            (Selection::Quit, Some(GameKey::Up)) => {
                self.selection = Selection::TextZoom;
            },
            (Selection::Quit, Some(GameKey::Down)) => {
                self.selection = Selection::MapZoom;
            },
            (Selection::Quit, Some(GameKey::Confirm)) => {
                return (
                    ModeControl::Push(
                        Mode::YesNoDialog(
                            YesNoDialogMode::new(String::from_str("Really exit Ruggle?"), false),
                        ),
                    ),
                    ModeUpdate::Immediate,
                );
            },
            (_, Some(GameKey::Cancel)) => {
                return (
                    ModeControl::Pop(ModeResult::OptionsMenu(OptionsMenuModeResult::Closed)),
                    ModeUpdate::Immediate,
                );
            },
            (_, _) => {},
        }
        (ModeControl::Stay, ModeUpdate::WaitForEvent)
    }
}

} // verus!
