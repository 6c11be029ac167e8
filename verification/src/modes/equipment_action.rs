//! The menu of what can be done with an item that the player has equipped.

use vstd::prelude::*;
use vstd::string::*;
use crate::components::Entity;
use crate::gamekey::{pressed, spec_pressed, GameKey, InputEvent};
use crate::modes::{ModeControl, ModeResult, ModeUpdate};
use crate::state::GameState;
use crate::text::text_width;
use crate::ui::{
    black, gray, selected_bg, spec_centered, spec_ops, white, DrawCmd, DrawOp, GridLayout, Options,
    Size,
};

verus! {

/// How the menu was left.
#[derive(Clone, Copy, PartialEq, Eq, Structural, Debug)]
pub enum EquipmentActionModeResult {
    AppQuit,
    Cancelled,
    RemoveEquipment(Entity),
    DropEquipment(Entity),
}

/// The part of the menu that the selection is in.
#[derive(Clone, Copy, PartialEq, Eq, Structural, Debug)]
pub enum SubSection {
    Actions,
    Cancel,
}

/// What can be done with the item.
#[derive(Clone, Copy, PartialEq, Eq, Structural, Debug)]
pub enum EquipmentAction {
    RemoveEquipment,
    DropEquipment,
}

impl EquipmentAction {
    /// The label of the action.
    pub open spec fn spec_name(&self) -> Seq<char> {
        match self {
            EquipmentAction::RemoveEquipment => "[ Remove ]"@,
            EquipmentAction::DropEquipment => "[ Drop ]"@,
        }
    }

    /// The label of the action.
    pub fn name(&self) -> (s: &'static str)
        ensures
            s@ == self.spec_name(),
    {
        match self {
            EquipmentAction::RemoveEquipment => "[ Remove ]",
            EquipmentAction::DropEquipment => "[ Drop ]",
        }
    }
}

/// The label of the entry that leaves the menu.
pub open spec fn spec_cancel_label() -> Seq<char> {
    "[ Cancel ]"@
}

/// Show a menu of actions for an item currently equipped by the player.
pub struct EquipmentActionMode {
    pub item_id: Entity,
    pub inner_width: i32,
    pub actions: Vec<EquipmentAction>,
    pub subsection: SubSection,
    pub selection: i32,
}

/// The larger of two numbers.
pub open spec fn spec_max(a: int, b: int) -> int {
    if a >= b {
        a
    } else {
        b
    }
}

/// The width of the widest label among `actions`.
pub open spec fn spec_widest_action(actions: Seq<EquipmentAction>) -> int
    decreases actions.len(),
{
    if actions.len() == 0 {
        0
    } else {
        spec_max(
            spec_widest_action(actions.drop_last()),
            actions.last().spec_name().len() as int,
        )
    }
}

/// The width that the menu needs inside its frame: two more than its widest
/// line, which is the name of the item, the cancel entry or an action.
pub open spec fn spec_inner_width(item_name: Seq<char>, actions: Seq<EquipmentAction>) -> int {
    2 + spec_max(
        spec_max(item_name.len() as int, spec_cancel_label().len() as int),
        spec_widest_action(actions),
    )
}

/// The part of the menu that the selection is in after `key`, and the
/// selection: Up and Down go round the actions and the cancel entry.
pub open spec fn spec_navigate(
    subsection: SubSection,
    selection: int,
    count: int,
    key: Option<GameKey>,
) -> (SubSection, int) {
    match (key, subsection) {
        (Some(GameKey::Up), SubSection::Actions) => if selection > 0 {
            (SubSection::Actions, selection - 1)
        } else {
            (SubSection::Cancel, selection)
        },
        (Some(GameKey::Up), SubSection::Cancel) => if count > 0 {
            (SubSection::Actions, count - 1)
        } else {
            (subsection, selection)
        },
        (Some(GameKey::Down), SubSection::Actions) => if selection < count - 1 {
            (SubSection::Actions, selection + 1)
        } else {
            (SubSection::Cancel, selection)
        },
        (Some(GameKey::Down), SubSection::Cancel) => if count > 0 {
            (SubSection::Actions, 0)
        } else {
            (subsection, selection)
        },
        _ => (subsection, selection),
    }
}

/// What confirming the selection hands to the stack: the selected action on
/// the item, or a cancellation.
pub open spec fn spec_confirm(
    subsection: SubSection,
    selection: int,
    actions: Seq<EquipmentAction>,
    item: Entity,
) -> (ModeControl, ModeUpdate) {
    (
        ModeControl::Pop(
            ModeResult::EquipmentAction(
                match subsection {
                    SubSection::Actions => match actions[selection] {
                        EquipmentAction::RemoveEquipment =>
                            EquipmentActionModeResult::RemoveEquipment(
                            item,
                        ),
                        EquipmentAction::DropEquipment => EquipmentActionModeResult::DropEquipment(
                            item,
                        ),
                    },
                    SubSection::Cancel => EquipmentActionModeResult::Cancelled,
                },
            ),
        ),
        ModeUpdate::Immediate,
    )
}

/// What an update hands to the stack: closing the window and Cancel leave
/// the menu, Confirm carries out the selection, anything else stays.
pub open spec fn spec_hands(
    subsection: SubSection,
    selection: int,
    actions: Seq<EquipmentAction>,
    item: Entity,
    input: Option<InputEvent>,
) -> (ModeControl, ModeUpdate) {
    if input == Some(InputEvent::AppQuit) {
        (
            ModeControl::Pop(ModeResult::EquipmentAction(EquipmentActionModeResult::AppQuit)),
            ModeUpdate::Immediate,
        )
    } else if spec_pressed(input) == Some(GameKey::Cancel) {
        (
            ModeControl::Pop(ModeResult::EquipmentAction(EquipmentActionModeResult::Cancelled)),
            ModeUpdate::Immediate,
        )
    } else if spec_pressed(input) == Some(GameKey::Confirm) {
        spec_confirm(subsection, selection, actions, item)
    } else {
        (ModeControl::Stay, ModeUpdate::WaitForEvent)
    }
}

/// What the top of the menu says: a tint that dims it when it is not
/// active, a frame, and the glyph and the name of the item.
pub open spec fn spec_head(
    looks: crate::components::Renderable,
    name: Seq<char>,
    width: i32,
    height: i32,
    active: bool,
) -> Seq<DrawOp> {
    seq![
        DrawOp::Tint {
            color: if active {
                white()
            } else {
                gray()
            },
        },
        DrawOp::Frame { x: 0, y: 0, w: width, h: height, fg: white(), bg: black() },
        DrawOp::Glyphs { x: 2, y: 2, len: 1, ch: looks.ch, fg: looks.fg, bg: looks.bg },
        DrawOp::Text { x: 4, y: 2, text: name, fg: white(), bg: black() },
    ]
}

/// What the first `n` lines of actions say: each action in a row of its
/// own, the selected one with a highlighted background.
pub open spec fn spec_action_lines(
    actions: Seq<EquipmentAction>,
    subsection: SubSection,
    selection: i32,
    n: int,
) -> Seq<DrawOp>
    decreases n,
{
    if n <= 0 {
        Seq::empty()
    } else {
        spec_action_lines(actions, subsection, selection, n - 1).push(
            DrawOp::Text {
                x: 4,
                y: (4 + n - 1) as i32,
                text: actions[n - 1].spec_name(),
                fg: white(),
                bg: if subsection == SubSection::Actions && selection == n - 1 {
                    selected_bg()
                } else {
                    black()
                },
            },
        )
    }
}

/// What the menu says: its top, the actions, and the cancel entry in the
/// third row from the bottom, highlighted when it is selected.
pub open spec fn spec_draw(
    mode: &EquipmentActionMode,
    looks: crate::components::Renderable,
    name: Seq<char>,
    width: i32,
    height: i32,
    active: bool,
) -> Seq<DrawOp> {
    (spec_head(looks, name, width, height, active) + spec_action_lines(
        mode.actions@,
        mode.subsection,
        mode.selection,
        mode.actions@.len() as int,
    )).push(
        DrawOp::Text {
            x: 4,
            y: (height - 3) as i32,
            text: spec_cancel_label(),
            fg: white(),
            bg: if mode.subsection == SubSection::Cancel {
                selected_bg()
            } else {
                black()
            },
        },
    )
}

impl EquipmentActionMode {
    /// The selection points at an action whenever it is among the actions,
    /// and the rows of the menu can be counted.
    pub open spec fn wf(&self) -> bool {
        &&& self.actions.len() + 8 <= i32::MAX
        &&& 0 <= self.inner_width <= i32::MAX
        &&& self.subsection == SubSection::Actions ==> 0 <= self.selection < self.actions.len()
    }

    /// The layout of the grid of the menu: as wide as its widest line with
    /// a margin of two cells on either side, eight rows and one for each
    /// action high, centred in the window at the zoom of the text.
    pub fn prepare_grids(&self, options: &Options, window: Size) -> (l: GridLayout)
        requires
            self.wf(),
        ensures
            l == spec_centered(
                Size { w: (4 + self.inner_width) as u32, h: (8 + self.actions.len()) as u32 },
                window,
                options.text_zoom,
            ),
    {
        GridLayout {
            cells: Size { w: 4 + self.inner_width as u32, h: 8 + self.actions.len() as u32 },
            area_x: 0,
            area_y: 0,
            area_size: window,
            centered: true,
            zoom: options.text_zoom,
            clear_color: None,
        }
    }

    /// The calls that draw the menu on a grid of `width` by `height` cells.
    pub fn draw(&self, state: &GameState, width: i32, height: i32, active: bool) -> (cmds: Vec<
        DrawCmd,
    >)
        requires
            self.wf(),
            0 <= height,
            state.world.spec_renderable(self.item_id).is_some(),
            state.world.spec_name(self.item_id).is_some(),
        ensures
            spec_ops(cmds@) == spec_draw(
                self,
                state.world.spec_renderable(self.item_id).unwrap(),
                state.world.spec_name(self.item_id).unwrap(),
                width,
                height,
                active,
            ),
    {
        let looks = state.world.renderable(self.item_id).unwrap();
        let name = state.world.name(self.item_id).unwrap();
        let mut cmds: Vec<DrawCmd> = Vec::new();
        cmds.push(
            DrawCmd::Tint {
                color: if active {
                    white()
                } else {
                    gray()
                },
            },
        );
        cmds.push(DrawCmd::Frame { x: 0, y: 0, w: width, h: height, fg: white(), bg: black() });
        cmds.push(
            DrawCmd::Glyphs { x: 2, y: 2, len: 1, ch: looks.ch, fg: looks.fg, bg: looks.bg },
        );
        cmds.push(DrawCmd::Text { x: 4, y: 2, text: name, fg: white(), bg: black() });
        let ghost head = spec_ops(cmds@);
        let mut i: usize = 0;
        while i < self.actions.len()
            invariant
                i <= self.actions.len(),
                self.wf(),
                spec_ops(cmds@) == head + spec_action_lines(
                    self.actions@,
                    self.subsection,
                    self.selection,
                    i as int,
                ),
            decreases self.actions.len() - i,
        {
            let ghost before = cmds@;
            let chosen: bool = match self.subsection {
                SubSection::Actions => i as i32 == self.selection,
                SubSection::Cancel => false,
            };
            cmds.push(
                DrawCmd::Text {
                    x: 4,
                    y: 4 + i as i32,
                    text: String::from_str(self.actions[i].name()),
                    fg: white(),
                    bg: if chosen {
                        selected_bg()
                    } else {
                        black()
                    },
                },
            );
            proof {
                crate::ui::lemma_ops_push(before, cmds@[cmds@.len() - 1]);
            }
            i = i + 1;
        }
        let ghost listed = cmds@;
        cmds.push(
            DrawCmd::Text {
                x: 4,
                y: height - 3,
                text: String::from_str("[ Cancel ]"),
                fg: white(),
                bg: match self.subsection {
                    SubSection::Cancel => selected_bg(),
                    SubSection::Actions => black(),
                },
            },
        );
        proof {
            crate::ui::lemma_ops_push(listed, cmds@[cmds@.len() - 1]);
        }
        cmds
    }

    /// The menu for item `item_id`, with the first action selected.
    pub fn new(state: &GameState, item_id: Entity) -> (m: EquipmentActionMode)
        requires
            state.world.spec_name(item_id).is_some(),
            state.world.spec_name(item_id).unwrap().len() <= i32::MAX - 2,
        ensures
            m.wf(),
            m.item_id == item_id,
            m.inner_width == spec_inner_width(state.world.spec_name(item_id).unwrap(), m.actions@),
            m.actions@ == seq![EquipmentAction::RemoveEquipment, EquipmentAction::DropEquipment],
            m.subsection == SubSection::Actions,
            m.selection == 0,
    {
        let mut actions: Vec<EquipmentAction> = Vec::new();
        actions.push(EquipmentAction::RemoveEquipment);
        actions.push(EquipmentAction::DropEquipment);
        let subsection = if actions.len() == 0 {
            SubSection::Cancel
        } else {
            SubSection::Actions
        };
        let name = state.world.name(item_id).unwrap();
        let mut widest: usize = text_width(name.as_str());
        let cancel_width: usize = text_width("[ Cancel ]");
        proof {
            reveal_strlit("[ Cancel ]");
        }
        if cancel_width > widest {
            widest = cancel_width;
        }
        let ghost base = widest as int;
        let mut i: usize = 0;
        while i < actions.len()
            invariant
                i <= actions.len(),
                actions.len() == 2,
                base <= i32::MAX - 2,
                widest <= i32::MAX - 2,
                widest == spec_max(base, spec_widest_action(actions@.take(i as int))),
            decreases actions.len() - i,
        {
            proof {
                reveal_strlit("[ Remove ]");
                reveal_strlit("[ Drop ]");
                assert(actions@.take(i + 1).drop_last() =~= actions@.take(i as int));
            }
            let w: usize = text_width(actions[i].name());
            if w > widest {
                widest = w;
            }
            i = i + 1;
        }
        assert(actions@.take(2) =~= actions@);
        EquipmentActionMode {
            item_id,
            inner_width: (2 + widest) as i32,
            actions,
            subsection,
            selection: 0,
        }
    }

    /// What confirming the selection hands to the stack.
    pub fn confirm_action(&self) -> (r: (ModeControl, ModeUpdate))
        requires
            self.wf(),
        ensures
            r == spec_confirm(self.subsection, self.selection as int, self.actions@, self.item_id),
    {
        let result = match self.subsection {
            SubSection::Actions => match self.actions[self.selection as usize] {
                EquipmentAction::RemoveEquipment => EquipmentActionModeResult::RemoveEquipment(
                    self.item_id,
                ),
                EquipmentAction::DropEquipment => EquipmentActionModeResult::DropEquipment(
                    self.item_id,
                ),
            },
            SubSection::Cancel => EquipmentActionModeResult::Cancelled,
        };
        (ModeControl::Pop(ModeResult::EquipmentAction(result)), ModeUpdate::Immediate)
    }

    /// Moves the selection, carries it out, or leaves the menu.
    pub fn update(&mut self, input: Option<InputEvent>) -> (r: (ModeControl, ModeUpdate))
        requires
            old(self).wf(),
        ensures
            final(self).wf(),
            final(self).item_id == old(self).item_id,
            final(self).inner_width == old(self).inner_width,
            final(self).actions == old(self).actions,
            (final(self).subsection, final(self).selection as int) == spec_navigate(
                old(self).subsection,
                old(self).selection as int,
                old(self).actions.len() as int,
                spec_pressed(input),
            ),
            r == spec_hands(
                old(self).subsection,
                old(self).selection as int,
                old(self).actions@,
                old(self).item_id,
                input,
            ),
    {
        match input {
            Some(InputEvent::AppQuit) => {
                return (
                    ModeControl::Pop(
                        ModeResult::EquipmentAction(EquipmentActionModeResult::AppQuit),
                    ),
                    ModeUpdate::Immediate,
                );
            },
            _ => {},
        }
        let count: i32 = self.actions.len() as i32;
        match pressed(input) {
            Some(GameKey::Up) => match self.subsection {
                SubSection::Actions => {
                    if self.selection > 0 {
                        self.selection = self.selection - 1;
                    } else {
                        self.subsection = SubSection::Cancel;
                    }
                },
                SubSection::Cancel => {
                    if count > 0 {
                        self.subsection = SubSection::Actions;
                        self.selection = count - 1;
                    }
                },
            },
            Some(GameKey::Down) => match self.subsection {
                SubSection::Actions => {
                    if self.selection < count - 1 {
                        self.selection = self.selection + 1;
                    } else {
                        self.subsection = SubSection::Cancel;
                    }
                },
                SubSection::Cancel => {
                    if count > 0 {
                        self.subsection = SubSection::Actions;
                        self.selection = 0;
                    }
                },
            },
            Some(GameKey::Cancel) => {
                return (
                    ModeControl::Pop(
                        ModeResult::EquipmentAction(EquipmentActionModeResult::Cancelled),
                    ),
                    ModeUpdate::Immediate,
                );
            },
            Some(GameKey::Confirm) => {
                return self.confirm_action();
            },
            _ => {},
        }
        (ModeControl::Stay, ModeUpdate::WaitForEvent)
    }
}

} // verus!
