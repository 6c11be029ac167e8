//! The stack of interactive modes.
//!
//! Exactly one mode, the one on top, is active and receives input. The modes
//! below it are suspended and keep their state until the modes above them
//! are gone. Pushing, popping and replacing the top are the only ways in
//! which the stack changes.

use vstd::prelude::*;
use crate::gamekey::{spec_pressed, InputEvent};
use crate::modes::dungeon::{DungeonMode, DungeonModeResult};
use crate::modes::equipment_action::{EquipmentActionMode, EquipmentActionModeResult};
use crate::modes::game_over::{GameOverMode, GameOverModeResult};
use crate::modes::options_menu::{OptionsMenuMode, OptionsMenuModeResult};
use crate::modes::target::{TargetMode, TargetModeResult};
use crate::modes::yes_no_dialog::{YesNoDialogMode, YesNoDialogModeResult};
use crate::state::GameState;

pub mod dungeon;
pub mod equipment_action;
pub mod game_over;
pub mod options_menu;
pub mod target;
pub mod yes_no_dialog;

verus! {

/// When the update of the active mode is to be called again.
#[derive(Clone, Copy, PartialEq, Eq, Structural, Debug)]
pub enum ModeUpdate {
    /// At once, within the same frame.
    Immediate,
    /// When the next input event arrives.
    WaitForEvent,
}

/// What a mode hands to the mode below it when it is popped.
#[derive(Clone, Copy, PartialEq, Eq, Structural, Debug)]
pub enum ModeResult {
    Dungeon(DungeonModeResult),
    EquipmentAction(EquipmentActionModeResult),
    GameOver(GameOverModeResult),
    OptionsMenu(OptionsMenuModeResult),
    Target(TargetModeResult),
    YesNoDialog(YesNoDialogModeResult),
}

/// One interactive context of the game.
pub enum Mode {
    Dungeon(DungeonMode),
    EquipmentAction(EquipmentActionMode),
    GameOver(GameOverMode),
    OptionsMenu(OptionsMenuMode),
    Target(TargetMode),
    YesNoDialog(YesNoDialogMode),
}

/// What the update of a mode asks the stack to do.
pub enum ModeControl {
    /// Keep the stack as it is.
    Stay,
    /// Suspend the active mode and make the given mode the active one.
    Push(Mode),
    /// End the active mode and hand the result to the mode below it.
    Pop(ModeResult),
    /// End the active mode and put the given mode in its place.
    Replace(Mode),
}

/// What the caller of the stack is to do next.
#[derive(Clone, Copy, PartialEq, Eq, Structural, Debug)]
pub enum RunControl {
    /// The last mode was popped: the program is over.
    Quit,
    /// Call again when the next input event arrives.
    WaitForEvent,
}

/// Whether an update took mode `before` to mode `after`, the game state
/// from `s0` to `s1`, and handed `r` to the stack: each kind of mode stays
/// of its kind and does what its own update says. No update takes a result
/// that its mode does not accept.
pub open spec fn spec_mode_updated(
    before: Mode,
    after: Mode,
    s0: &GameState,
    s1: &GameState,
    input: Option<InputEvent>,
    pop_result: Option<ModeResult>,
    r: (ModeControl, ModeUpdate),
) -> bool {
    match before {
        Mode::Dungeon(m) => {
            &&& after == before
            &&& match dungeon::spec_outcome(input, pop_result) {
                dungeon::DungeonOutcome::Stay => r.0 is Stay && r.1 == ModeUpdate::WaitForEvent
                    && *s1 == *s0,
                dungeon::DungeonOutcome::Leave => r == (
                    ModeControl::Pop(ModeResult::Dungeon(DungeonModeResult::Done)),
                    ModeUpdate::Immediate,
                ) && *s1 == *s0,
                dungeon::DungeonOutcome::OpenOptions => {
                    &&& r.0 matches ModeControl::Push(Mode::OptionsMenu(menu))
                    &&& menu.selection == options_menu::Selection::MapZoom
                    &&& r.1 == ModeUpdate::Immediate
                    &&& *s1 == *s0
                },
                dungeon::DungeonOutcome::Act(action) => {
                    &&& exists|acted: Seq<crate::components::Entity>| #[trigger]
                        crate::turn::spec_turn(s0, s1, action, acted)
                    &&& s1.player_alive ==> r.0 is Stay && r.1 == ModeUpdate::WaitForEvent
                    &&& !s1.player_alive ==> r.1 == ModeUpdate::Immediate && (
                    r.0 matches ModeControl::Replace(Mode::GameOver(_)))
                },
            }
        },
        Mode::EquipmentAction(m) => {
            &&& *s1 == *s0
            &&& after matches Mode::EquipmentAction(n)
            &&& n.item_id == m.item_id
            &&& n.inner_width == m.inner_width
            &&& n.actions == m.actions
            &&& (n.subsection, n.selection as int) == equipment_action::spec_navigate(
                m.subsection,
                m.selection as int,
                m.actions.len() as int,
                spec_pressed(input),
            )
            &&& r == equipment_action::spec_hands(
                m.subsection,
                m.selection as int,
                m.actions@,
                m.item_id,
                input,
            )
        },
        Mode::GameOver(m) => *s1 == *s0 && after == before && r == game_over::spec_game_over(input),
        Mode::OptionsMenu(m) => {
            &&& after matches Mode::OptionsMenu(n)
            &&& options_menu::spec_accepts(pop_result)
            &&& options_menu::spec_hands(
                r,
                options_menu::spec_outcome(
                    m.selection,
                    input,
                    options_menu::spec_answer(pop_result),
                ),
            )
            &&& pop_result.is_some() ==> n == m && *s1 == *s0
            &&& pop_result.is_none() ==> n.selection == options_menu::spec_next_selection(
                m.selection,
                spec_pressed(input),
            ) && *s1 == (GameState {
                options: options_menu::spec_next_options(
                    s0.options,
                    m.selection,
                    spec_pressed(input),
                ),
                ..*s0
            })
        },
        Mode::Target(m) => {
            &&& *s1 == *s0
            &&& after matches Mode::Target(n)
            &&& n.for_what == m.for_what
            &&& n.center == m.center
            &&& n.range == m.range
            &&& n.radius == m.radius
            &&& n.valid == m.valid
            &&& n.warn_self == m.warn_self
            &&& pop_result.is_some() ==> n.cursor == m.cursor
            &&& pop_result.is_none() ==> (n.cursor.0 as int, n.cursor.1 as int)
                == target::spec_move_cursor(
                (m.cursor.0 as int, m.cursor.1 as int),
                (m.center.0 as int, m.center.1 as int),
                m.range as int,
                spec_pressed(input),
            )
            &&& target::spec_hands(r, target::spec_outcome(&m, input, pop_result), m.cursor)
        },
        Mode::YesNoDialog(m) => {
            &&& *s1 == *s0
            &&& after matches Mode::YesNoDialog(n)
            &&& n.prompt == m.prompt
            &&& n.yes_selected == yes_no_dialog::spec_select(m.yes_selected, spec_pressed(input))
            &&& r == yes_no_dialog::spec_answer(m.yes_selected, spec_pressed(input))
        },
    }
}

impl Mode {
    /// Whether the mode is sound and can be updated and drawn.
    pub open spec fn wf(&self) -> bool {
        match self {
            Mode::Target(m) => m.wf() && m.spec_box_fits(),
            Mode::EquipmentAction(m) => m.wf(),
            _ => true,
        }
    }

    /// Whether the mode takes `pending`, the result of a mode that was
    /// popped off it. The options menu takes the answers of its dialog and
    /// nothing else; the other modes take any result.
    pub open spec fn spec_accepts(&self, pending: Option<ModeResult>) -> bool {
        match self {
            Mode::OptionsMenu(_) => options_menu::spec_accepts(pending),
            _ => true,
        }
    }

    /// Whether `above` may lie on this mode: when it is popped, this mode
    /// accepts what it leaves. On the options menu only a dialog may lie.
    pub open spec fn spec_carries(&self, above: Mode) -> bool {
        match self {
            Mode::OptionsMenu(_) => above is YesNoDialog,
            _ => true,
        }
    }

    /// Whether the mode below this one shows through: menus and dialogs are
    /// drawn over what lies under them, a view of the map covers it.
    pub open spec fn spec_transparent(&self) -> bool {
        match self {
            Mode::Dungeon(_) => false,
            Mode::Target(_) => false,
            _ => true,
        }
    }

    /// Whether the mode below this one shows through.
    pub fn transparent(&self) -> (b: bool)
        ensures
            b == self.spec_transparent(),
    {
        match self {
            Mode::Dungeon(_) => false,
            Mode::Target(_) => false,
            _ => true,
        }
    }

    /// Hands the input event, and the result of a mode that was just popped
    /// off this one, to the mode.
    ///
    /// Without an event and without a result a mode has nothing to do: it
    /// stays as it is, changes nothing and waits for the next event.
    pub fn update(
        &mut self,
        state: &mut GameState,
        input: Option<InputEvent>,
        pop_result: &Option<ModeResult>,
    ) -> (r: (ModeControl, ModeUpdate))
        requires
            old(self).wf(),
            old(self).spec_accepts(*pop_result),
            old(state).wf(),
            old(state).phase == crate::state::TurnPhase::PlayerActing,
        ensures
            final(self).wf(),
            final(state).wf(),
            final(state).phase == crate::state::TurnPhase::PlayerActing,
            input.is_none() && pop_result.is_none() ==> r.0 is Stay && r.1
                == ModeUpdate::WaitForEvent
                && *final(self) == *old(self) && *final(state) == *old(state),
            spec_control_wf(r.0),
            spec_mode_updated(
                *old(self),
                *final(self),
                old(state),
                final(state),
                input,
                *pop_result,
                r,
            ),
    {
        match self {
            Mode::Dungeon(m) => m.update(state, input, pop_result),
            Mode::EquipmentAction(m) => m.update(input),
            Mode::GameOver(m) => m.update(input),
            Mode::OptionsMenu(m) => m.update(&mut state.options, input, pop_result),
            Mode::Target(m) => m.update(input, pop_result),
            Mode::YesNoDialog(m) => m.update(input),
        }
    }
}

/// Whether the mode that a control carries, if any, is sound.
pub open spec fn spec_control_wf(control: ModeControl) -> bool {
    match control {
        ModeControl::Push(m) => m.wf(),
        ModeControl::Replace(m) => m.wf(),
        _ => true,
    }
}

/// Whether every mode of `s` is sound.
pub open spec fn spec_modes_wf(s: Seq<Mode>) -> bool {
    forall|i: int| 0 <= i < s.len() ==> (#[trigger] s[i]).wf()
}

/// Whether every mode of `s` but the lowest may lie on the mode below it.
pub open spec fn spec_modes_carried(s: Seq<Mode>) -> bool {
    forall|i: int| 0 <= i < s.len() - 1 ==> (#[trigger] s[i]).spec_carries(s[i + 1])
}

/// Whether `control` suits `stack`: what it puts on a mode may lie there,
/// and the mode that it uncovers accepts the result that it leaves.
pub open spec fn spec_control_fits(stack: Seq<Mode>, control: ModeControl) -> bool {
    match control {
        ModeControl::Stay => true,
        ModeControl::Push(m) => stack.len() >= 1 ==> stack.last().spec_carries(m),
        ModeControl::Pop(r) => stack.len() >= 2 ==> stack[stack.len() - 2].spec_accepts(Some(r)),
        ModeControl::Replace(m) => stack.len() >= 2 ==> stack[stack.len() - 2].spec_carries(m),
    }
}

/// What the update of a mode hands to the stack suits the mode below it:
/// the mode is still one that may lie there, a mode that replaces it may
/// lie there too, a result that it leaves is accepted below, and a mode
/// that it pushes may lie on it.
pub proof fn lemma_update_fits(
    below: Mode,
    before: Mode,
    after: Mode,
    s0: &GameState,
    s1: &GameState,
    input: Option<InputEvent>,
    pending: Option<ModeResult>,
    r: (ModeControl, ModeUpdate),
)
    requires
        below.spec_carries(before),
        spec_mode_updated(before, after, s0, s1, input, pending, r),
    ensures
        below.spec_carries(after),
        spec_control_fits(seq![below, after], r.0),
{
    let stack = seq![below, after];
    assert(stack.last() == after);
    assert(stack[stack.len() - 2] == below);
}

/// The stack after `control` was applied to it.
pub open spec fn spec_apply(stack: Seq<Mode>, control: ModeControl) -> Seq<Mode> {
    if stack.len() == 0 {
        stack
    } else {
        match control {
            ModeControl::Stay => stack,
            ModeControl::Push(m) => stack.push(m),
            ModeControl::Pop(_) => stack.drop_last(),
            ModeControl::Replace(m) => stack.drop_last().push(m),
        }
    }
}

/// The result that waits for the new top of the stack after `control` was
/// applied.
pub open spec fn spec_pending(stack: Seq<Mode>, control: ModeControl) -> Option<ModeResult> {
    if stack.len() == 0 {
        None
    } else {
        match control {
            ModeControl::Pop(r) => Some(r),
            _ => None,
        }
    }
}

/// A mode that is pushed and popped again, with no push in between, leaves
/// the stack exactly as it was: every mode below, the parent among them, is
/// the same instance with the same state.
pub proof fn lemma_push_pop(stack: Seq<Mode>, pushed: Mode, result: ModeResult)
    requires
        stack.len() > 0,
    ensures
        spec_apply(spec_apply(stack, ModeControl::Push(pushed)), ModeControl::Pop(result)) == stack,
        spec_apply(stack, ModeControl::Push(pushed)).len() > 0,
{
}

/// Whatever a control does, it touches the top of the stack only: every
/// mode below the top is afterwards what it was before. The stack becomes
/// empty only when its last mode is popped.
pub proof fn lemma_only_top_changes(stack: Seq<Mode>, control: ModeControl)
    ensures
        forall|i: int|
            0 <= i < stack.len() - 1 ==> i < spec_apply(stack, control).len() && spec_apply(
                stack,
                control,
            )[i] == stack[i],
        stack.len() > 0 ==> (spec_apply(stack, control).len() == 0 <==> stack.len() == 1
            && control is Pop),
{
}

/// A moment in the run of the stack: the modes, the result that waits for
/// the mode on top, the input event that is not used up yet, and the game
/// state.
pub struct Moment {
    pub stack: Seq<Mode>,
    pub pending: Option<ModeResult>,
    pub event: Option<InputEvent>,
    pub state: GameState,
}

/// Whether one update of the mode on top leads from moment `a` to moment
/// `b` and asks for `pacing`: the mode is updated with the event and the
/// pending result, what it asks for is applied to the stack, and the event
/// is used up.
pub open spec fn spec_step(a: Moment, b: Moment, pacing: ModeUpdate) -> bool {
    &&& a.stack.len() > 0
    &&& b.event.is_none()
    &&& exists|after: Mode, control: ModeControl| #[trigger]
        spec_mode_updated(
            a.stack.last(),
            after,
            &a.state,
            &b.state,
            a.event,
            a.pending,
            (control, pacing),
        ) && b.stack == spec_apply(a.stack.update(a.stack.len() - 1, after), control) && b.pending
            == spec_pending(a.stack, control)
}

/// Whether the run of one call goes through the moments of `trace`: each
/// but the last leads to the next by one update; after each update but the
/// last the mode asked to be called again at once and a mode was left to
/// call; and the run ended because the stack was empty or because the last
/// update asked to wait.
pub open spec fn spec_trace(trace: Seq<Moment>) -> bool {
    &&& trace.len() >= 1
    &&& trace.len() == 1 ==> trace[0].stack.len() == 0
    &&& forall|i: int|
        0 <= i < trace.len() - 2 ==> #[trigger] spec_step(
            trace[i],
            trace[i + 1],
            ModeUpdate::Immediate,
        ) && trace[i + 1].stack.len() > 0
    &&& trace.len() >= 2 ==> spec_step(
        trace[trace.len() - 2],
        trace.last(),
        ModeUpdate::WaitForEvent,
    ) || (trace.last().stack.len() == 0 && spec_step(
        trace[trace.len() - 2],
        trace.last(),
        ModeUpdate::Immediate,
    ))
}

/// Whether a run leads from moment `first` to moment `last`.
pub open spec fn spec_run(first: Moment, last: Moment) -> bool {
    exists|trace: Seq<Moment>|
        #[trigger] spec_trace(trace) && trace[0] == first && trace.last() == last
}

/// The modes of the game, the active one last, with the result that a
/// popped mode left for the mode below it.
pub struct ModeStack {
    pub stack: Vec<Mode>,
    pub pop_result: Option<ModeResult>,
}

impl ModeStack {
    /// Every mode of the stack is sound and may lie on the mode below it,
    /// and the mode on top accepts the result that waits for it.
    pub open spec fn wf(&self) -> bool {
        &&& spec_modes_wf(self.stack@)
        &&& spec_modes_carried(self.stack@)
        &&& self.stack@.len() > 0 ==> self.stack@.last().spec_accepts(self.pop_result)
    }

    /// The modes, the active one last.
    pub open spec fn view(&self) -> Seq<Mode> {
        self.stack@
    }

    /// A stack of the given modes, the last one active.
    pub fn new(modes: Vec<Mode>) -> (s: ModeStack)
        ensures
            s@ == modes@,
            s.pop_result.is_none(),
    {
        ModeStack { stack: modes, pop_result: None }
    }

    /// Whether no mode is left, which ends the program.
    pub fn is_empty(&self) -> (b: bool)
        ensures
            b == (self@.len() == 0),
    {
        self.stack.len() == 0
    }

    /// Applies what the update of the active mode asked for. An empty stack
    /// stays empty.
    pub fn apply(&mut self, control: ModeControl)
        requires
            old(self).wf(),
            spec_control_wf(control),
            spec_control_fits(old(self)@, control),
        ensures
            final(self).wf(),
            final(self)@ == spec_apply(old(self)@, control),
            final(self).pop_result == spec_pending(old(self)@, control),
    {
        if self.stack.len() == 0 {
            self.pop_result = None;
            return ;
        }
        match control {
            ModeControl::Stay => {
                self.pop_result = None;
            },
            ModeControl::Push(m) => {
                self.stack.push(m);
                self.pop_result = None;
            },
            ModeControl::Pop(r) => {
                self.stack.pop();
                self.pop_result = Some(r);
            },
            ModeControl::Replace(m) => {
                self.stack.pop();
                self.stack.push(m);
                self.pop_result = None;
            },
        }
    }

    /// The lowest mode that is drawn: drawing goes from the top down to the
    /// first mode that nothing shows through, and no further.
    pub fn first_drawn(&self) -> (i: usize)
        ensures
            self@.len() == 0 ==> i == 0,
            self@.len() > 0 ==> i < self@.len(),
            forall|j: int| i < j < self@.len() ==> (#[trigger] self@[j]).spec_transparent(),
            i > 0 ==> !self@[i as int].spec_transparent(),
    {
        let mut i: usize = self.stack.len();
        while i > 0
            invariant
                i <= self.stack.len(),
                forall|j: int| i <= j < self@.len() ==> (#[trigger] self@[j]).spec_transparent(),
            decreases i,
        {
            i = i - 1;
            if !self.stack[i].transparent() {
                return i;
            }
        }
        0
    }

    /// Runs the active mode on one input event.
    ///
    /// The event goes to the mode on top. While a mode asks to be called
    /// again at once, the new top is updated in turn, with the result of a
    /// popped mode if there is one, and without the event, which is used
    /// up. The call returns when a mode waits for the next event, or with
    /// `Quit` when the last mode was popped.
    pub fn update(&mut self, state: &mut GameState, input: Option<InputEvent>) -> (r: RunControl)
        requires
            old(self).wf(),
            old(state).wf(),
            old(state).phase == crate::state::TurnPhase::PlayerActing,
        ensures
            final(self).wf(),
            final(state).wf(),
            final(state).phase == crate::state::TurnPhase::PlayerActing,
            spec_run(
                Moment {
                    stack: old(self)@,
                    pending: old(self).pop_result,
                    event: input,
                    state: *old(state),
                },
                Moment {
                    stack: final(self)@,
                    pending: final(self).pop_result,
                    event: if old(self)@.len() == 0 {
                        input
                    } else {
                        None
                    },
                    state: *final(state),
                },
            ),
            r == RunControl::Quit <==> final(self)@.len() == 0,
            old(self)@.len() == 0 ==> *final(state) == *old(state),
            old(self)@.len() > 0 && input.is_none() && old(self).pop_result.is_none() ==> r
                == RunControl::WaitForEvent && final(self)@ == old(self)@ && *final(state)
                    == *old(state),
    {
        let mut event = input;
        let ghost origin = Moment {
            stack: self.stack@,
            pending: self.pop_result,
            event: input,
            state: *state,
        };
        let ghost mut trace = seq![origin];
        while self.stack.len() > 0
            invariant
                self.wf(),
                state.wf(),
                state.phase == crate::state::TurnPhase::PlayerActing,
                origin == (Moment {
                    stack: old(self)@,
                    pending: old(self).pop_result,
                    event: input,
                    state: *old(state),
                }),
                trace.len() >= 1,
                trace[0] == origin,
                trace.last() == (Moment {
                    stack: self.stack@,
                    pending: self.pop_result,
                    event,
                    state: *state,
                }),
                forall|i: int|
                    0 <= i < trace.len() - 1 ==> #[trigger] spec_step(
                        trace[i],
                        trace[i + 1],
                        ModeUpdate::Immediate,
                    ) && trace[i + 1].stack.len() > 0,
                trace.len() >= 2 ==> event.is_none() && !(input.is_none()
                    && old(self).pop_result.is_none()) && old(self)@.len() > 0
                    && self.stack@.len() > 0,
            decreases
                    (if event.is_some() || self.pop_result.is_some() {
                        2 * self.stack.len() + 2
                    } else {
                        1
                    }),
        {
            let ghost before = self.stack@;
            let ghost here = trace.last();
            let pending = self.pop_result;
            let n: usize = self.stack.len();
            let (control, pacing) = self.stack[n - 1].update(state, event, &pending);
            let ghost after = self.stack@[n - 1];
            proof {
                assert(self.stack@ =~= before.update(n - 1, after));
                assert forall|i: int| 0 <= i < self.stack@.len() implies (
                #[trigger] self.stack@[i]).wf() by {
                    if i < n - 1 {
                        assert(self.stack@[i] == before[i]);
                    }
                }
            }
            proof {
                if n >= 2 {
                    lemma_update_fits(
                        before[n - 2],
                        before[n - 1],
                        after,
                        &here.state,
                        state,
                        event,
                        pending,
                        (control, pacing),
                    );
                }
                assert forall|i: int| 0 <= i < self.stack@.len() - 1 implies (
                #[trigger] self.stack@[i]).spec_carries(self.stack@[i + 1]) by {
                    if i < n - 2 {
                        assert(before[i].spec_carries(before[i + 1]));
                    }
                }
            }
            let ghost quiet = event.is_none() && pending.is_none();
            self.apply(control);
            event = None;
            let ghost there = Moment {
                stack: self.stack@,
                pending: self.pop_result,
                event: None,
                state: *state,
            };
            proof {
                assert(spec_mode_updated(
                    here.stack.last(),
                    after,
                    &here.state,
                    &there.state,
                    here.event,
                    here.pending,
                    (control, pacing),
                ));
                assert(spec_step(here, there, pacing));
            }
            let ghost walked = trace;
            proof {
                trace = trace.push(there);
                assert(trace[trace.len() - 2] == here);
                assert forall|i: int| 0 <= i < trace.len() - 2 implies #[trigger] spec_step(
                    trace[i],
                    trace[i + 1],
                    ModeUpdate::Immediate,
                ) && trace[i + 1].stack.len() > 0 by {
                    assert(trace[i] == walked[i]);
                    assert(trace[i + 1] == walked[i + 1]);
                    assert(spec_step(walked[i], walked[i + 1], ModeUpdate::Immediate));
                }
            }
            match pacing {
                ModeUpdate::WaitForEvent => {
                    proof {
                        assert(spec_trace(trace));
                        if quiet {
                            assert(self.stack@ =~= before);
                        }
                    }
                    if self.stack.len() == 0 {
                        return RunControl::Quit;
                    }
                    return RunControl::WaitForEvent;
                },
                ModeUpdate::Immediate => {
                    if self.stack.len() == 0 {
                        proof {
                            assert(spec_trace(trace));
                        }
                        return RunControl::Quit;
                    }
                },
            }
        }
        proof {
            assert(trace.len() == 1);
            assert(spec_trace(trace));
        }
        RunControl::Quit
    }
}

} // verus!
