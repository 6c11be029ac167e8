//! Picking a target tile within a certain range of the player.

use vstd::prelude::*;
use vstd::string::*;
use crate::bitgrid::BitGrid;
use crate::gamekey::{direction, pressed, spec_direction, spec_pressed, GameKey, InputEvent};
use crate::geometry::{dist2_wide, spec_dist2, spec_in_bounds, spec_within_range, within_range};
use crate::modes::yes_no_dialog::{YesNoDialogMode, YesNoDialogModeResult};
use crate::modes::{Mode, ModeControl, ModeResult, ModeUpdate};
use crate::components::{Color, Entity, Tags};
use crate::damage::{display_name, spec_display_name};
use crate::map::Occupant;
use crate::state::GameState;
use crate::text::{decimal_nat, join3, spec_decimal_nat};
use crate::render::{draw_scene, offset, spec_offset, spec_scene};
use crate::ui::{
    append_cmds, blue, draw_ui, lemma_ops_push, magenta, purple, recolor, spec_ops, spec_recolor,
    spec_ui, DrawCmd, DrawOp, MainDraw,
};

verus! {

/// How the targeting was left.
#[derive(Clone, Copy, PartialEq, Eq, Structural, Debug)]
pub enum TargetModeResult {
    Cancelled,
    Target { x: i32, y: i32 },
}

/// Pick a target position within a certain range of the player.
pub struct TargetMode {
    pub for_what: String,
    pub center: (i32, i32),
    pub range: i32,
    pub radius: i32,
    pub valid: BitGrid,
    pub cursor: (i32, i32),
    pub warn_self: bool,
}

/// What an update of the targeting comes to.
#[derive(Clone, Copy, PartialEq, Eq, Structural, Debug)]
pub enum TargetOutcome {
    /// Nothing for the stack to do.
    Stay,
    /// The targeting was called off.
    Cancel,
    /// The tile under the cursor was picked.
    Pick,
    /// Ask whether the player really wants to target its own tile.
    WarnTarget,
    /// Ask whether the player really wants to have its own tile in the area.
    WarnInclude,
}

/// Whether `p` lies in the square of side `2 range + 1` around `center`.
pub open spec fn spec_in_box(center: (int, int), range: int, p: (int, int)) -> bool {
    center.0 - range <= p.0 <= center.0 + range && center.1 - range <= p.1 <= center.1 + range
}

/// Where the cursor is after `key`: one step on in the direction of the
/// key, unless that leaves the square around the centre.
pub open spec fn spec_move_cursor(
    cursor: (int, int),
    center: (int, int),
    range: int,
    key: Option<GameKey>,
) -> (int, int) {
    if key.is_some() && spec_direction(key.unwrap()).is_some() {
        let d = spec_direction(key.unwrap()).unwrap();
        let to = (cursor.0 + d.0, cursor.1 + d.1);
        if spec_in_box(center, range, to) {
            to
        } else {
            cursor
        }
    } else {
        cursor
    }
}

/// Whether some occupant of tile `(x, y)` is a monster.
pub open spec fn spec_has_monster(state: &GameState, x: int, y: int) -> bool {
    exists|k: int|
        0 <= k < state.map.spec_occupants(x, y).len() && state.world.spec_tags(
            (#[trigger] state.map.spec_occupants(x, y)[k]).id,
        ).monster
}

/// Whether tile `a` comes before tile `b`, or is `b`, when the tiles are
/// read row by row.
pub open spec fn spec_reads_before(a: (int, int), b: (int, int)) -> bool {
    a.1 < b.1 || (a.1 == b.1 && a.0 <= b.0)
}

/// Whether `c` is a tile of `tiles` with a monster on it that no other such
/// tile beats: none is closer to `center`, and of those at the same
/// distance `c` is the first when the tiles are read row by row.
pub open spec fn spec_closest_monster(
    state: &GameState,
    tiles: Set<(int, int)>,
    center: (int, int),
    c: (int, int),
) -> bool {
    &&& tiles.contains(c)
    &&& spec_has_monster(state, c.0, c.1)
    &&& forall|t: (int, int)|
        #![trigger tiles.contains(t)]
        tiles.contains(t) && spec_has_monster(state, t.0, t.1) ==> spec_dist2(center, c)
            < spec_dist2(center, t) || (spec_dist2(center, c) == spec_dist2(center, t)
            && spec_reads_before(c, t))
}

/// The tiles of `visible` that lie within `range` of `center`.
pub open spec fn spec_targetable(visible: Set<(int, int)>, center: (int, int), range: int) -> Set<
    (int, int),
> {
    Set::new(
        |t: (int, int)| visible.contains(t) && spec_within_range(spec_dist2(center, t), range),
    )
}

/// What an update comes to. The answer of the confirmation dialog comes
/// first, and any result leaves the input event unread. Confirm picks the
/// tile under the cursor if it can be targeted; with the warning on, a pick
/// whose area of effect reaches the player is to be confirmed first.
pub open spec fn spec_outcome(
    mode: &TargetMode,
    input: Option<InputEvent>,
    pop_result: Option<ModeResult>,
) -> TargetOutcome {
    let cursor = (mode.cursor.0 as int, mode.cursor.1 as int);
    let center = (mode.center.0 as int, mode.center.1 as int);
    match pop_result {
        Some(ModeResult::YesNoDialog(YesNoDialogModeResult::Yes)) => TargetOutcome::Pick,
        Some(_) => TargetOutcome::Stay,
        None => match spec_pressed(input) {
            Some(GameKey::Cancel) => TargetOutcome::Cancel,
            Some(GameKey::Confirm) => if !mode.valid@.contains(cursor) {
                TargetOutcome::Stay
            } else if mode.warn_self && spec_within_range(
                spec_dist2(cursor, center),
                mode.radius as int,
            ) {
                if cursor == center {
                    TargetOutcome::WarnTarget
                } else {
                    TargetOutcome::WarnInclude
                }
            } else {
                TargetOutcome::Pick
            },
            _ => TargetOutcome::Stay,
        },
    }
}

/// Whether `r` is what the targeting hands to the stack for `outcome`.
pub open spec fn spec_hands(r: (ModeControl, ModeUpdate), outcome: TargetOutcome, cursor: (i32,
    i32))
    -> bool {
    match outcome {
        TargetOutcome::Stay => r.0 is Stay && r.1 == ModeUpdate::WaitForEvent,
        TargetOutcome::Cancel => r == (
            ModeControl::Pop(ModeResult::Target(TargetModeResult::Cancelled)),
            ModeUpdate::Immediate,
        ),
        TargetOutcome::Pick => r == (
            ModeControl::Pop(
                ModeResult::Target(TargetModeResult::Target { x: cursor.0, y: cursor.1 }),
            ),
            ModeUpdate::Immediate,
        ),
        TargetOutcome::WarnTarget => {
            &&& r.0 matches ModeControl::Push(Mode::YesNoDialog(d))
            &&& d.prompt@ == "Really "@ + "target"@ + " yourself?"@
            &&& !d.yes_selected
            &&& r.1 == ModeUpdate::Immediate
        },
        TargetOutcome::WarnInclude => {
            &&& r.0 matches ModeControl::Push(Mode::YesNoDialog(d))
            &&& d.prompt@ == "Really "@ + "include"@ + " yourself?"@
            &&& !d.yes_selected
            &&& r.1 == ModeUpdate::Immediate
        },
    }
}


/// A role that an entity can have on a tile.
#[derive(Clone, Copy, PartialEq, Eq, Structural, Debug)]
pub enum Role {
    Monster,
    Player,
    Item,
}

/// Whether `tags` give the role.
pub open spec fn spec_in_role(tags: Tags, role: Role) -> bool {
    match role {
        Role::Monster => tags.monster,
        Role::Player => tags.player,
        Role::Item => tags.item,
    }
}

/// The first of `occupants` that has the role.
pub open spec fn spec_first_in_role(state: &GameState, occupants: Seq<Occupant>, role: Role)
    -> Option<Entity>
    decreases occupants.len(),
{
    if occupants.len() == 0 {
        None
    } else if spec_in_role(state.world.spec_tags(occupants[0].id), role) {
        Some(occupants[0].id)
    } else {
        spec_first_in_role(state, occupants.drop_first(), role)
    }
}

/// How many of `occupants` have the role.
pub open spec fn spec_count_in_role(state: &GameState, occupants: Seq<Occupant>, role: Role) -> nat
    decreases occupants.len(),
{
    if occupants.len() == 0 {
        0
    } else if spec_in_role(state.world.spec_tags(occupants[0].id), role) {
        1 + spec_count_in_role(state, occupants.drop_first(), role)
    } else {
        spec_count_in_role(state, occupants.drop_first(), role)
    }
}

/// What stands on tile `(x, y)`, in words: the name of the first monster;
/// without a monster, the name of the player if it stands there; without
/// either, the name of the item if there is one item, the number of items
/// if there are several, and the kind of the tile if there is none.
pub open spec fn spec_describe(state: &GameState, x: int, y: int) -> Seq<char> {
    let occupants = state.map.spec_occupants(x, y);
    let items = spec_count_in_role(state, occupants, Role::Item);
    if spec_first_in_role(state, occupants, Role::Monster).is_some() {
        spec_display_name(
            &state.world,
            spec_first_in_role(state, occupants, Role::Monster).unwrap(),
        )
    } else if spec_first_in_role(state, occupants, Role::Player).is_some() {
        spec_display_name(&state.world, spec_first_in_role(state, occupants, Role::Player).unwrap())
    } else if items == 1 {
        spec_display_name(&state.world, spec_first_in_role(state, occupants, Role::Item).unwrap())
    } else if items > 1 {
        spec_decimal_nat(items) + " items"@
    } else {
        state.map.spec_tile(x, y).spec_name()
    }
}

fn in_role(tags: Tags, role: Role) -> (b: bool)
    ensures
        b == spec_in_role(tags, role),
{
    match role {
        Role::Monster => tags.monster,
        Role::Player => tags.player,
        Role::Item => tags.item,
    }
}

/// The first entity on tile `(x, y)` that has the role, and how many there
/// are.
pub fn find_in_role(state: &GameState, x: i32, y: i32, role: Role) -> (r: (Option<Entity>, usize))
    requires
        state.wf(),
    ensures
        r.0 == spec_first_in_role(state, state.map.spec_occupants(x as int, y as int), role),
        r.1 == spec_count_in_role(state, state.map.spec_occupants(x as int, y as int), role),
{
    let ids = state.map.entities_at(x, y);
    let ghost occ = state.map.spec_occupants(x as int, y as int);
    let mut first: Option<Entity> = None;
    let mut count: usize = 0;
    let mut i: usize = ids.len();
    while i > 0
        invariant
            i <= ids.len(),
            ids.len() == occ.len(),
            occ == state.map.spec_occupants(x as int, y as int),
            forall|k: int| 0 <= k < ids.len() ==> ids[k] == occ[k].id,
            first == spec_first_in_role(state, occ.subrange(i as int, occ.len() as int), role),
            count == spec_count_in_role(state, occ.subrange(i as int, occ.len() as int), role),
            count <= occ.len() - i,
        decreases i,
    {
        i = i - 1;
        let ghost rest = occ.subrange(i as int, occ.len() as int);
        assert(rest.drop_first() =~= occ.subrange(i + 1, occ.len() as int));
        if in_role(state.world.tags(ids[i]), role) {
            first = Some(ids[i]);
            count = count + 1;
        }
    }
    assert(occ.subrange(0, occ.len() as int) =~= occ);
    (first, count)
}

/// What stands on tile `(x, y)`, in words.
pub fn describe_tile(state: &GameState, x: i32, y: i32) -> (s: String)
    requires
        state.wf(),
    ensures
        s@ == spec_describe(state, x as int, y as int),
{
    let monsters = find_in_role(state, x, y, Role::Monster);
    match monsters.0 {
        Some(m) => {
            return display_name(&state.world, m);
        },
        None => {},
    }
    let players = find_in_role(state, x, y, Role::Player);
    match players.0 {
        Some(p) => {
            return display_name(&state.world, p);
        },
        None => {},
    }
    let items = find_in_role(state, x, y, Role::Item);
    if items.1 == 1 {
        proof {
            lemma_counted_is_found(state, state.map.spec_occupants(x as int, y as int), Role::Item);
        }
        display_name(&state.world, items.0.unwrap())
    } else if items.1 > 1 {
        let mut s = decimal_nat(items.1 as u64);
        s.append(" items");
        s
    } else {
        String::from_str(state.map.tile_kind(x, y).name())
    }
}

/// Where occupants with a role are counted, a first one is found.
pub proof fn lemma_counted_is_found(state: &GameState, occupants: Seq<Occupant>, role: Role)
    ensures
        spec_count_in_role(state, occupants, role) > 0 <==> spec_first_in_role(
            state,
            occupants,
            role,
        ).is_some(),
    decreases occupants.len(),
{
    if occupants.len() > 0 {
        lemma_counted_is_found(state, occupants.drop_first(), role);
    }
}

/// The cells that the targeting highlights.
#[derive(Clone, Copy, PartialEq, Eq, Structural, Debug)]
pub enum Shading {
    /// The tiles that can be targeted.
    Targetable,
    /// The tiles that the effect reaches from the cursor.
    Area,
}

/// Whether tile `(x, y)` is highlighted.
pub open spec fn spec_shaded(mode: &TargetMode, which: Shading, x: int, y: int) -> bool {
    match which {
        Shading::Targetable => mode.valid@.contains((x, y)),
        Shading::Area => spec_within_range(
            spec_dist2((x, y), (mode.cursor.0 as int, mode.cursor.1 as int)),
            mode.radius as int,
        ),
    }
}

/// Whether a coordinate can be handed to the renderer.
pub open spec fn spec_fits(v: int) -> bool {
    i32::MIN <= v <= i32::MAX
}

/// What the highlight of tile `(x, y)` says, if the tile is highlighted:
/// its cell on the grid lies `off` from the tile.
pub open spec fn spec_cell(
    mode: &TargetMode,
    which: Shading,
    x: int,
    y: int,
    off: (int, int),
    bg: Color,
) -> Seq<DrawOp> {
    if spec_shaded(mode, which, x, y) && spec_fits(x + off.0) && spec_fits(y + off.1) {
        seq![DrawOp::Shade { x: (x + off.0) as i32, y: (y + off.1) as i32, len: 1, bg }]
    } else {
        Seq::empty()
    }
}

/// What the highlights of the first `n` tiles of row `y` say, from column
/// `min_x` on.
pub open spec fn spec_row_shades(
    mode: &TargetMode,
    which: Shading,
    min_x: int,
    y: int,
    n: int,
    off: (int, int),
    bg: Color,
) -> Seq<DrawOp>
    decreases n,
{
    if n <= 0 {
        Seq::empty()
    } else {
        spec_row_shades(mode, which, min_x, y, n - 1, off, bg) + spec_cell(
            mode,
            which,
            min_x + n - 1,
            y,
            off,
            bg,
        )
    }
}

/// What the highlights of the first `m` rows of a square of tiles say: the
/// square has its corner at `(min_x, min_y)` and `side` tiles to a side.
pub open spec fn spec_box_shades(
    mode: &TargetMode,
    which: Shading,
    min_x: int,
    min_y: int,
    side: int,
    m: int,
    off: (int, int),
    bg: Color,
) -> Seq<DrawOp>
    decreases m,
{
    if m <= 0 {
        Seq::empty()
    } else {
        spec_box_shades(mode, which, min_x, min_y, side, m - 1, off, bg) + spec_row_shades(
            mode,
            which,
            min_x,
            min_y + m - 1,
            side,
            off,
            bg,
        )
    }
}

/// The prompt of the targeting: what it is for, and what lies under the
/// cursor, if that can be targeted.
pub open spec fn spec_prompt(mode: &TargetMode, state: &GameState) -> Seq<char> {
    "Pick target for "@ + mode.for_what@ + ": "@ + (if mode.valid@.contains(
        (mode.cursor.0 as int, mode.cursor.1 as int),
    ) {
        spec_describe(state, mode.cursor.0 as int, mode.cursor.1 as int)
    } else {
        "Out of range"@
    })
}

/// What the targeting says on the map grid: the map and whoever is in
/// sight, a highlight on every tile that can be targeted, one on every tile
/// of the area of effect around the cursor, and one on the cursor.
pub open spec fn spec_draw_map(
    mode: &TargetMode,
    state: &GameState,
    width: i32,
    height: i32,
    active: bool,
) -> Seq<DrawOp> {
    let off = spec_offset(state, width, height);
    let cursor = (mode.cursor.0 as int, mode.cursor.1 as int);
    spec_scene(state, width, height, active) + spec_box_shades(
        mode,
        Shading::Targetable,
        mode.center.0 - mode.range,
        mode.center.1 - mode.range,
        2 * mode.range + 1,
        2 * mode.range + 1,
        off,
        spec_recolor(blue(), active),
    ) + spec_box_shades(
        mode,
        Shading::Area,
        mode.cursor.0 - mode.radius,
        mode.cursor.1 - mode.radius,
        2 * mode.radius + 1,
        2 * mode.radius + 1,
        off,
        spec_recolor(purple(), active),
    ) + (if spec_fits(cursor.0 + off.0) && spec_fits(cursor.1 + off.1) {
        seq![
            DrawOp::Shade {
                x: (cursor.0 + off.0) as i32,
                y: (cursor.1 + off.1) as i32,
                len: 1,
                bg: spec_recolor(magenta(), active),
            },
        ]
    } else {
        Seq::empty()
    })
}

fn fits(v: i64) -> (b: bool)
    ensures
        b == spec_fits(v as int),
{
    -0x8000_0000 <= v && v <= 0x7fff_ffff
}

/// A tile within `range` of the centre lies in the square around it.
proof fn lemma_in_range_in_box(dx: int, dy: int, range: int)
    requires
        0 <= range,
        dx * dx + dy * dy <= range * (range + 1),
    ensures
        -range <= dx <= range,
        -range <= dy <= range,
{
    assert(dx * dx >= 0 && dy * dy >= 0) by (nonlinear_arith);
    assert(-range <= dx <= range) by (nonlinear_arith)
        requires
            0 <= range,
            dx * dx <= range * (range + 1),
    ;
    assert(-range <= dy <= range) by (nonlinear_arith)
        requires
            0 <= range,
            dy * dy <= range * (range + 1),
    ;
}

/// Whether some occupant of tile `(x, y)` is a monster.
pub fn has_monster(state: &GameState, x: i32, y: i32) -> (b: bool)
    requires
        state.wf(),
    ensures
        b == spec_has_monster(state, x as int, y as int),
{
    let ids = state.map.entities_at(x, y);
    let ghost occ = state.map.spec_occupants(x as int, y as int);
    let mut k: usize = 0;
    while k < ids.len()
        invariant
            k <= ids.len(),
            ids.len() == occ.len(),
            occ == state.map.spec_occupants(x as int, y as int),
            forall|j: int| 0 <= j < ids.len() ==> ids[j] == occ[j].id,
            forall|j: int| 0 <= j < k ==> !state.world.spec_tags((#[trigger] occ[j]).id).monster,
        decreases ids.len() - k,
    {
        if state.world.tags(ids[k]).monster {
            return true;
        }
        k = k + 1;
    }
    false
}

/// Whether tile `t` of a grid `w` tiles wide comes before tile `(x, y)` when
/// the tiles are read row by row.
pub open spec fn spec_read(t: (int, int), x: int, y: int, w: int, h: int) -> bool {
    spec_in_bounds(t.0, t.1, w, h) && (t.1 < y || (t.1 == y && t.0 < x))
}

impl TargetMode {
    /// The cursor lies in the square around the centre.
    pub open spec fn wf(&self) -> bool {
        &&& self.valid.wf()
        &&& 0 <= self.range
        &&& 0 <= self.radius
        &&& spec_in_box(
            (self.center.0 as int, self.center.1 as int),
            self.range as int,
            (self.cursor.0 as int, self.cursor.1 as int),
        )
    }

    /// Whether the square around the centre fits the coordinates, so that
    /// the cursor can be moved to each of its tiles.
    pub open spec fn spec_box_fits(&self) -> bool {
        &&& i32::MIN <= self.center.0 - self.range
        &&& self.center.0 + self.range <= i32::MAX
        &&& i32::MIN <= self.center.1 - self.range
        &&& self.center.1 + self.range <= i32::MAX
    }

    /// Whether the mode is what targeting with the given range and radius
    /// starts as in `state`: it is centred on the player, the tiles that
    /// can be targeted are those that the player sees within the range,
    /// and the cursor is on the closest of them with a monster on it, or on
    /// the player where there is none.
    pub open spec fn spec_opened(&self, state: &GameState, range: i32, radius: i32) -> bool {
        &&& self.center == (
            state.world.spec_position(state.player).unwrap().x,
            state.world.spec_position(state.player).unwrap().y,
        )
        &&& self.range == range
        &&& self.radius == radius
        &&& self.valid@ == spec_targetable(
            state.world.spec_fov(state.player).unwrap().visible@,
            (self.center.0 as int, self.center.1 as int),
            range as int,
        )
        &&& (exists|t: (int, int)| self.valid@.contains(t) && spec_has_monster(state, t.0, t.1))
            ==> spec_closest_monster(
            state,
            self.valid@,
            (self.center.0 as int, self.center.1 as int),
            (self.cursor.0 as int, self.cursor.1 as int),
        )
        &&& (forall|t: (int, int)| self.valid@.contains(t) ==> !spec_has_monster(state, t.0, t.1))
            ==> self.cursor == self.center
    }

    /// Targeting that starts twice in the same state, with the same range
    /// and radius, starts the same: the same tiles can be targeted, around
    /// the same centre, and the cursor is on the same tile.
    pub proof fn lemma_opened_once(&self, other: &TargetMode, state: &GameState, range: i32,
        radius: i32)
        requires
            self.spec_opened(state, range, radius),
            other.spec_opened(state, range, radius),
        ensures
            self.valid@ == other.valid@,
            self.center == other.center,
            self.range == other.range,
            self.radius == other.radius,
            self.cursor == other.cursor,
    {
        let a = (self.cursor.0 as int, self.cursor.1 as int);
        let b = (other.cursor.0 as int, other.cursor.1 as int);
        if exists|t: (int, int)| self.valid@.contains(t) && spec_has_monster(state, t.0, t.1) {
            assert(self.valid@.contains(b));
            assert(other.valid@.contains(a));
            assert(a == b);
        }
    }

    /// Targeting for `for_what` around the player.
    ///
    /// The tiles that can be targeted are those that the player sees within
    /// `range`. The cursor starts on the closest of them with a monster on
    /// it, and on the player where there is none.
    pub fn new(state: &GameState, for_what: String, range: i32, radius: i32, warn_self: bool) -> (m:
        TargetMode)
        requires
            state.wf(),
            0 <= range,
            0 <= radius,
        ensures
            m.wf(),
            m.for_what == for_what,
            m.warn_self == warn_self,
            m.valid.same_size(&state.world.spec_fov(state.player).unwrap().visible),
            m.spec_opened(state, range, radius),
    {
        let player = state.player;
        let pos = state.world.position(player).unwrap();
        let center: (i32, i32) = (pos.x, pos.y);
        let ghost c = (center.0 as int, center.1 as int);
        let visible = match &state.world.fovs[player.0] {
            Some(f) => &f.visible,
            None => {
                return TargetMode {
                    for_what,
                    center,
                    range,
                    radius,
                    valid: BitGrid::new(0, 0),
                    cursor: center,
                    warn_self,
                };
            },
        };
        let w: i32 = visible.width;
        let h: i32 = visible.height;
        let mut valid = BitGrid::new(w, h);
        let mut found: bool = false;
        let mut best: (i32, i32) = center;
        let mut best_d: i128 = 0;
        let mut y: i32 = 0;
        while y < h
            invariant
                0 <= y <= h,
                state.wf(),
                visible.wf(),
                visible.width == w,
                visible.height == h,
                valid.wf(),
                valid.width == w,
                valid.height == h,
                0 <= range,
                c == (center.0 as int, center.1 as int),
                valid@ == Set::new(
                    |t: (int, int)|
                        spec_read(t, 0, y as int, w as int, h as int) && visible@.contains(t)
                            && spec_within_range(spec_dist2(c, t), range as int),
                ),
                found ==> spec_closest_monster(state, valid@, c, (best.0 as int, best.1 as int))
                    && best_d == spec_dist2(c, (best.0 as int, best.1 as int)),
                !found ==> best == center && forall|t: (int, int)|
                    valid@.contains(t) ==> !spec_has_monster(state, t.0, t.1),
            decreases h - y,
        {
            let mut x: i32 = 0;
            while x < w
                invariant
                    0 <= y < h,
                    0 <= x <= w,
                    state.wf(),
                    visible.wf(),
                    visible.width == w,
                    visible.height == h,
                    valid.wf(),
                    valid.width == w,
                    valid.height == h,
                    0 <= range,
                    c == (center.0 as int, center.1 as int),
                    valid@ == Set::new(
                        |t: (int, int)|
                            spec_read(t, x as int, y as int, w as int, h as int)
                                && visible@.contains(t) && spec_within_range(
                                spec_dist2(c, t),
                                range as int,
                            ),
                    ),
                    found ==> spec_closest_monster(
                        state,
                        valid@,
                        c,
                        (best.0 as int, best.1 as int),
                    ) && best_d == spec_dist2(c, (best.0 as int, best.1 as int)),
                    !found ==> best == center && forall|t: (int, int)|
                        valid@.contains(t) ==> !spec_has_monster(state, t.0, t.1),
                decreases w - x,
            {
                if visible.get(x, y) && within_range(center, (x, y), range) {
                    valid.set(x, y, true);
                    if has_monster(state, x, y) {
                        let d: i128 = dist2_wide(center, (x, y));
                        if !found || d < best_d {
                            found = true;
                            best = (x, y);
                            best_d = d;
                        }
                    }
                }
                x = x + 1;
            }
            y = y + 1;
        }
        proof {
            if found {
                let b = (best.0 as int, best.1 as int);
                lemma_in_range_in_box(b.0 - c.0, b.1 - c.1, range as int);
            }
            assert(valid@ =~= spec_targetable(visible@, c, range as int));
        }
        TargetMode { for_what, center, range, radius, valid, cursor: best, warn_self }
    }

    fn shaded(&self, which: Shading, x: i64, y: i64) -> (b: bool)
        requires
            self.wf(),
            self.spec_box_fits(),
            -0x1_0000_0000 <= x <= 0x1_0000_0000,
            -0x1_0000_0000 <= y <= 0x1_0000_0000,
        ensures
            b == spec_shaded(self, which, x as int, y as int),
    {
        match which {
            Shading::Targetable => {
                if fits(x) && fits(y) {
                    self.valid.get(x as i32, y as i32)
                } else {
                    false
                }
            },
            Shading::Area => {
                let dx: i128 = self.cursor.0 as i128 - x as i128;
                let dy: i128 = self.cursor.1 as i128 - y as i128;
                proof {
                    assert(0 <= dx * dx <= 0x2_0000_0000 * 0x2_0000_0000 && 0 <= dy * dy
                        <= 0x2_0000_0000 * 0x2_0000_0000) by (nonlinear_arith)
                        requires
                            -0x2_0000_0000 <= dx <= 0x2_0000_0000,
                            -0x2_0000_0000 <= dy <= 0x2_0000_0000,
                    ;
                    assert(0 <= self.radius * (self.radius + 1) <= 0x8000_0000 * 0x8000_0000)
                        by (nonlinear_arith)
                        requires
                            0 <= self.radius <= 0x7fff_ffff,
                    ;
                }
                dx * dx + dy * dy <= (self.radius as i128) * (self.radius as i128 + 1)
            },
        }
    }

    fn shade_box(
        &self,
        which: Shading,
        min_x: i64,
        min_y: i64,
        side: i64,
        off: (i64, i64),
        bg: Color,
    ) -> (cmds: Vec<DrawCmd>)
        requires
            self.wf(),
            self.spec_box_fits(),
            -0x1_0000_0000 <= min_x,
            min_x + side <= 0x1_0000_0000,
            -0x1_0000_0000 <= min_y,
            min_y + side <= 0x1_0000_0000,
            0 <= side,
            -0x1_0000_0000 <= off.0 <= 0x1_0000_0000,
            -0x1_0000_0000 <= off.1 <= 0x1_0000_0000,
        ensures
            spec_ops(cmds@) == spec_box_shades(
                self,
                which,
                min_x as int,
                min_y as int,
                side as int,
                side as int,
                (off.0 as int, off.1 as int),
                bg,
            ),
    {
        let ghost o = (off.0 as int, off.1 as int);
        let mut cmds: Vec<DrawCmd> = Vec::new();
        let mut m: i64 = 0;
        while m < side
            invariant
                0 <= m <= side,
                self.wf(),
                self.spec_box_fits(),
            self.spec_box_fits(),
                -0x1_0000_0000 <= min_x,
                min_x + side <= 0x1_0000_0000,
                -0x1_0000_0000 <= min_y,
                min_y + side <= 0x1_0000_0000,
                -0x1_0000_0000 <= off.0 <= 0x1_0000_0000,
                -0x1_0000_0000 <= off.1 <= 0x1_0000_0000,
                o == (off.0 as int, off.1 as int),
                spec_ops(cmds@) == spec_box_shades(
                    self,
                    which,
                    min_x as int,
                    min_y as int,
                    side as int,
                    m as int,
                    o,
                    bg,
                ),
            decreases side - m,
        {
            let y: i64 = min_y + m;
            let ghost done = spec_ops(cmds@);
            let mut n: i64 = 0;
            while n < side
                invariant
                    0 <= n <= side,
                    0 <= m < side,
                    y == min_y + m,
                    self.wf(),
                    self.spec_box_fits(),
                self.spec_box_fits(),
            self.spec_box_fits(),
                    -0x1_0000_0000 <= min_x,
                    min_x + side <= 0x1_0000_0000,
                    -0x1_0000_0000 <= min_y,
                    min_y + side <= 0x1_0000_0000,
                    -0x1_0000_0000 <= off.0 <= 0x1_0000_0000,
                    -0x1_0000_0000 <= off.1 <= 0x1_0000_0000,
                    o == (off.0 as int, off.1 as int),
                    spec_ops(cmds@) == done + spec_row_shades(
                        self,
                        which,
                        min_x as int,
                        y as int,
                        n as int,
                        o,
                        bg,
                    ),
                decreases side - n,
            {
                let x: i64 = min_x + n;
                let sx: i64 = x + off.0;
                let sy: i64 = y + off.1;
                let ghost before = cmds@;
                if self.shaded(which, x, y) && fits(sx) && fits(sy) {
                    cmds.push(DrawCmd::Shade { x: sx as i32, y: sy as i32, len: 1, bg });
                    proof {
                        lemma_ops_push(before, cmds@[cmds@.len() - 1]);
                    }
                }
                n = n + 1;
            }
            m = m + 1;
        }
        cmds
    }

    /// The calls that draw the targeting: on the map grid of `map.0` by
    /// `map.1` cells the map with the highlights, on the interface grid of
    /// `ui.0` by `ui.1` cells the interface with the prompt.
    pub fn draw(&self, state: &GameState, map: (i32, i32), ui: (i32, i32), active: bool) -> (d:
        MainDraw)
        requires
            self.wf(),
            self.spec_box_fits(),
            state.wf(),
            0 <= map.0,
            0 <= map.1,
            0 <= ui.0,
            0 <= ui.1,
        ensures
            spec_ops(d.map@) == spec_draw_map(self, state, map.0, map.1, active),
            spec_ops(d.ui@) == spec_ui(state, ui.0, ui.1, Some(spec_prompt(self, state))),
    {
        let off = offset(state, map.0, map.1);
        let range: i64 = self.range as i64;
        let radius: i64 = self.radius as i64;
        let mut cmds = draw_scene(state, map.0, map.1, active);
        append_cmds(
            &mut cmds,
            self.shade_box(
                Shading::Targetable,
                self.center.0 as i64 - range,
                self.center.1 as i64 - range,
                2 * range + 1,
                off,
                recolor(blue(), active),
            ),
        );
        append_cmds(
            &mut cmds,
            self.shade_box(
                Shading::Area,
                self.cursor.0 as i64 - radius,
                self.cursor.1 as i64 - radius,
                2 * radius + 1,
                off,
                recolor(purple(), active),
            ),
        );
        let sx: i64 = self.cursor.0 as i64 + off.0;
        let sy: i64 = self.cursor.1 as i64 + off.1;
        let ghost shades = cmds@;
        if fits(sx) && fits(sy) {
            cmds.push(
                DrawCmd::Shade { x: sx as i32, y: sy as i32, len: 1, bg: recolor(magenta(),
                    active) },
            );
            proof {
                lemma_ops_push(shades, cmds@[cmds@.len() - 1]);
            }
        } else {
        }
        let described = if self.valid.get(self.cursor.0, self.cursor.1) {
            describe_tile(state, self.cursor.0, self.cursor.1)
        } else {
            String::from_str("Out of range")
        };
        let mut prompt = String::from_str("Pick target for ");
        prompt.append(self.for_what.as_str());
        prompt.append(": ");
        prompt.append(described.as_str());
        MainDraw { map: cmds, ui: draw_ui(state, ui.0, ui.1, Some(prompt.as_str())) }
    }

    /// Moves the cursor, picks the tile under it, or calls the targeting
    /// off.
    ///
    /// With a result of a popped mode at hand the input event is not read
    /// and the cursor stays.
    pub fn update(&mut self, input: Option<InputEvent>, pop_result: &Option<ModeResult>) -> (r: (
        ModeControl,
        ModeUpdate,
    ))
        requires
            old(self).wf(),
            old(self).spec_box_fits(),
        ensures
            final(self).wf(),
            final(self).for_what == old(self).for_what,
            final(self).center == old(self).center,
            final(self).range == old(self).range,
            final(self).radius == old(self).radius,
            final(self).valid == old(self).valid,
            final(self).warn_self == old(self).warn_self,
            pop_result.is_some() ==> final(self).cursor == old(self).cursor,
            pop_result.is_none() ==> (final(self).cursor.0 as int, final(self).cursor.1 as int)
                == spec_move_cursor(
                (old(self).cursor.0 as int, old(self).cursor.1 as int),
                (old(self).center.0 as int, old(self).center.1 as int),
                old(self).range as int,
                spec_pressed(input),
            ),
            spec_hands(r, spec_outcome(old(self), input, *pop_result), old(self).cursor),
    {
        match pop_result {
            Some(ModeResult::YesNoDialog(YesNoDialogModeResult::Yes)) => {
                return (
                    ModeControl::Pop(
                        ModeResult::Target(
                            TargetModeResult::Target { x: self.cursor.0, y: self.cursor.1 },
                        ),
                    ),
                    ModeUpdate::Immediate,
                );
            },
            Some(_) => {
                return (ModeControl::Stay, ModeUpdate::WaitForEvent);
            },
            None => {},
        }
        let key = match pressed(input) {
            Some(k) => k,
            None => {
                return (ModeControl::Stay, ModeUpdate::WaitForEvent);
            },
        };
        match direction(key) {
            Some(d) => {
                let x: i64 = self.cursor.0 as i64 + d.0 as i64;
                let y: i64 = self.cursor.1 as i64 + d.1 as i64;
                let min_x: i64 = self.center.0 as i64 - self.range as i64;
                let max_x: i64 = self.center.0 as i64 + self.range as i64;
                let min_y: i64 = self.center.1 as i64 - self.range as i64;
                let max_y: i64 = self.center.1 as i64 + self.range as i64;
                if min_x <= x && x <= max_x && min_y <= y && y <= max_y {
                    self.cursor = (x as i32, y as i32);
                }
                return (ModeControl::Stay, ModeUpdate::WaitForEvent);
            },
            None => {},
        }
        match key {
            GameKey::Cancel => (
                ModeControl::Pop(ModeResult::Target(TargetModeResult::Cancelled)),
                ModeUpdate::Immediate,
            ),
            GameKey::Confirm => {
                if self.valid.get(self.cursor.0, self.cursor.1) {
                    if self.warn_self && within_range(self.cursor, self.center, self.radius) {
                        let verb = if self.cursor.0 == self.center.0 && self.cursor.1
                            == self.center.1 {
                            "target"
                        } else {
                            "include"
                        };
                        let prompt = join3("Really ", verb, " yourself?");
                        (
                            ModeControl::Push(Mode::YesNoDialog(YesNoDialogMode::new(prompt,
                                false))),
                            ModeUpdate::Immediate,
                        )
                    } else {
                        (
                            ModeControl::Pop(
                                ModeResult::Target(
                                    TargetModeResult::Target { x: self.cursor.0, y: self.cursor.1 },
                                ),
                            ),
                            ModeUpdate::Immediate,
                        )
                    }
                } else {
                    (ModeControl::Stay, ModeUpdate::WaitForEvent)
                }
            },
            _ => (ModeControl::Stay, ModeUpdate::WaitForEvent),
        }
    }
}

} // verus!
