//! What the interface is laid out and coloured with.

use vstd::prelude::*;
use vstd::string::*;
use crate::components::Color;
use crate::message::Messages;
use crate::state::GameState;
use crate::text::{decimal, spec_decimal, text_width};

verus! {

/// White.
pub open spec fn spec_white() -> Color {
    Color { r: 255, g: 255, b: 255 }
}

/// White.
#[verifier::when_used_as_spec(spec_white)]
pub fn white() -> (c: Color)
    ensures
        c == spec_white(),
{
    Color { r: 255, g: 255, b: 255 }
}

/// Black.
pub open spec fn spec_black() -> Color {
    Color { r: 0, g: 0, b: 0 }
}

/// Black.
#[verifier::when_used_as_spec(spec_black)]
pub fn black() -> (c: Color)
    ensures
        c == spec_black(),
{
    Color { r: 0, g: 0, b: 0 }
}

/// Gray, which also dims a mode that is not on top.
pub open spec fn spec_gray() -> Color {
    Color { r: 128, g: 128, b: 128 }
}

/// Gray, which also dims a mode that is not on top.
#[verifier::when_used_as_spec(spec_gray)]
pub fn gray() -> (c: Color)
    ensures
        c == spec_gray(),
{
    Color { r: 128, g: 128, b: 128 }
}

/// Red.
pub open spec fn spec_red() -> Color {
    Color { r: 255, g: 0, b: 0 }
}

/// Red.
#[verifier::when_used_as_spec(spec_red)]
pub fn red() -> (c: Color)
    ensures
        c == spec_red(),
{
    Color { r: 255, g: 0, b: 0 }
}

/// Blue.
pub open spec fn spec_blue() -> Color {
    Color { r: 0, g: 0, b: 255 }
}

/// Blue.
#[verifier::when_used_as_spec(spec_blue)]
pub fn blue() -> (c: Color)
    ensures
        c == spec_blue(),
{
    Color { r: 0, g: 0, b: 255 }
}

/// Yellow.
pub open spec fn spec_yellow() -> Color {
    Color { r: 255, g: 255, b: 0 }
}

/// Yellow.
#[verifier::when_used_as_spec(spec_yellow)]
pub fn yellow() -> (c: Color)
    ensures
        c == spec_yellow(),
{
    Color { r: 255, g: 255, b: 0 }
}

/// Magenta.
pub open spec fn spec_magenta() -> Color {
    Color { r: 255, g: 0, b: 255 }
}

/// Magenta.
#[verifier::when_used_as_spec(spec_magenta)]
pub fn magenta() -> (c: Color)
    ensures
        c == spec_magenta(),
{
    Color { r: 255, g: 0, b: 255 }
}

/// Purple.
pub open spec fn spec_purple() -> Color {
    Color { r: 128, g: 0, b: 128 }
}

/// Purple.
#[verifier::when_used_as_spec(spec_purple)]
pub fn purple() -> (c: Color)
    ensures
        c == spec_purple(),
{
    Color { r: 128, g: 0, b: 128 }
}

/// The background of the selected entry of a menu.
pub open spec fn spec_selected_bg() -> Color {
    Color { r: 0, g: 128, b: 255 }
}

/// The background of the selected entry of a menu.
#[verifier::when_used_as_spec(spec_selected_bg)]
pub fn selected_bg() -> (c: Color)
    ensures
        c == spec_selected_bg(),
{
    Color { r: 0, g: 128, b: 255 }
}

/// The player's display settings.
#[derive(Clone, Copy, PartialEq, Eq, Structural, Debug)]
pub struct Options {
    pub tileset: u32,
    pub font: u32,
    pub map_zoom: u32,
    pub text_zoom: u32,
}

/// The grid on which the map is drawn.
pub const MAP_GRID: usize = 0;

/// The grid on which the status line and the messages are drawn.
pub const UI_GRID: usize = 1;

/// The fewest columns and rows of the map grid: the standard range of
/// sight, to either side of a centre tile.
pub const MIN_MAP_CELLS: u32 = 17;

/// The fewest columns of the interface grid.
pub const MIN_UI_COLUMNS: u32 = 40;

/// The rows of the interface grid.
pub const UI_ROWS: u32 = 5;

/// A width and a height, in cells or in pixels.
#[derive(Clone, Copy, PartialEq, Eq, Structural, Debug)]
pub struct Size {
    pub w: u32,
    pub h: u32,
}

/// Where a grid is shown and how large it is.
#[derive(Clone, Copy, PartialEq, Eq, Structural, Debug)]
pub struct GridLayout {
    /// The columns and rows of the grid.
    pub cells: Size,
    /// The left edge of the area of the window that the grid is shown in.
    pub area_x: i32,
    /// The top edge of that area.
    pub area_y: i32,
    /// The size of that area in pixels.
    pub area_size: Size,
    /// Whether the grid is centred in the area, or fills it from the corner.
    pub centered: bool,
    /// How many pixels of the window one pixel of a tile takes up.
    pub zoom: u32,
    /// The colour that a new grid is cleared with, if it is cleared.
    pub clear_color: Option<Color>,
}

/// The layout of the two main grids.
#[derive(Clone, Copy, PartialEq, Eq, Structural, Debug)]
pub struct MainLayout {
    pub map: GridLayout,
    pub ui: GridLayout,
}

/// The number of cells of `tile` pixels along a stretch of the window.
///
/// As many as fit into `span` pixels, but at least `least`; one more if
/// tiles of that size do not fill `whole` pixels evenly, so that the grid
/// reaches the edge; and one more if that is needed to make the number
/// odd, so that there is a single centre cell.
pub open spec fn spec_cover(span: int, whole: int, tile: int, least: int) -> int {
    let base = if span / tile >= least {
        span / tile
    } else {
        least
    };
    let filled = if whole % tile > 0 {
        base + 1
    } else {
        base
    };
    if filled % 2 == 0 {
        filled + 1
    } else {
        filled
    }
}

/// `a - b`, or zero where that would be negative.
pub open spec fn spec_minus(a: int, b: int) -> int {
    if a >= b {
        a - b
    } else {
        0
    }
}

fn cover(span: u32, whole: u32, tile: u32, least: u32) -> (cells: u32)
    requires
        0 < tile,
        span <= i32::MAX,
        least <= i32::MAX,
    ensures
        cells == spec_cover(span as int, whole as int, tile as int, least as int),
        cells % 2 == 1,
        cells >= least,
        whole == span ==> cells * tile >= whole,
{
    let mut cells: u32 = span / tile;
    if cells < least {
        cells = least;
    }
    if whole % tile > 0 {
        cells = cells + 1;
    }
    if cells % 2 == 0 {
        cells = cells + 1;
    }
    proof {
        let q = span as int / tile as int;
        assert(span == q * tile + span % tile && 0 <= span % tile < tile) by (nonlinear_arith)
            requires
                0 < tile,
                q == span as int / tile as int,
        ;
        if whole == span {
            assert(cells * tile >= span) by (nonlinear_arith)
                requires
                    span == q * tile + span % tile,
                    0 <= span % tile < tile,
                    cells >= q,
                    0 < tile,
                    span % tile > 0 ==> cells >= q + 1,
            ;
        }
    }
    cells
}

/// The layout of the map grid and of the interface grid in a window of
/// `window` pixels.
///
/// The interface takes five rows of text at the bottom, at least forty
/// columns wide. The map takes what is left above it: an odd number of
/// columns and of rows, at least seventeen each, enough to reach the edges
/// of the window, centred in that space.
pub fn prepare_main_grids(options: &Options, map_tile: Size, ui_tile: Size, window: Size) -> (l:
    MainLayout)
    requires
        0 < map_tile.w * options.map_zoom <= u32::MAX,
        0 < map_tile.h * options.map_zoom <= u32::MAX,
        0 < ui_tile.w * options.text_zoom <= u32::MAX,
        0 < UI_ROWS * ui_tile.h * options.text_zoom <= u32::MAX,
        window.w <= i32::MAX,
        window.h <= i32::MAX,
    ensures
        l.ui.cells.w == (if window.w as int / (ui_tile.w * options.text_zoom)
            >= MIN_UI_COLUMNS {
            window.w as int / (ui_tile.w * options.text_zoom)
        } else {
            MIN_UI_COLUMNS as int
        }),
        l.ui.cells.h == UI_ROWS,
        l.ui.area_x == 0,
        l.ui.area_y == spec_minus(window.h as int, UI_ROWS * ui_tile.h * options.text_zoom),
        l.ui.area_size == (Size {
            w: window.w,
            h: (UI_ROWS * ui_tile.h * options.text_zoom) as u32,
        }),
        !l.ui.centered,
        l.ui.zoom == options.text_zoom,
        l.ui.clear_color == Some(black()),
        l.map.cells.w == spec_cover(
            window.w as int,
            window.w as int,
            map_tile.w * options.map_zoom,
            MIN_MAP_CELLS as int,
        ),
        l.map.cells.h == spec_cover(
            spec_minus(window.h as int, UI_ROWS * ui_tile.h * options.text_zoom),
            window.h as int,
            map_tile.h * options.map_zoom,
            MIN_MAP_CELLS as int,
        ),
        l.map.area_x == 0,
        l.map.area_y == 0,
        l.map.area_size.w == window.w,
        l.map.area_size.h == (if spec_minus(
            window.h as int,
            UI_ROWS * ui_tile.h * options.text_zoom,
        ) >= 1 {
            spec_minus(window.h as int, UI_ROWS * ui_tile.h * options.text_zoom)
        } else {
            1
        }),
        l.map.centered,
        l.map.zoom == options.map_zoom,
        l.map.clear_color.is_none(),
        l.map.cells.w % 2 == 1,
        l.map.cells.h % 2 == 1,
        l.map.cells.w >= MIN_MAP_CELLS,
        l.map.cells.h >= MIN_MAP_CELLS,
        l.ui.cells.w >= MIN_UI_COLUMNS,
        l.map.cells.w * (map_tile.w * options.map_zoom) >= window.w,
{
    proof {
        assert(0 < map_tile.w && 0 < options.map_zoom && 0 < map_tile.h && 0 < ui_tile.w && 0
            < options.text_zoom && 0 < ui_tile.h) by (nonlinear_arith)
            requires
                0 < map_tile.w * options.map_zoom,
                0 < map_tile.h * options.map_zoom,
                0 < ui_tile.w * options.text_zoom,
                0 < UI_ROWS * ui_tile.h * options.text_zoom,
        ;
        assert(ui_tile.h * options.text_zoom <= UI_ROWS * ui_tile.h * options.text_zoom)
            by (nonlinear_arith)
            requires
                0 < ui_tile.h,
                0 < options.text_zoom,
        ;
        assert(UI_ROWS * (ui_tile.h * options.text_zoom) == UI_ROWS * ui_tile.h
            * options.text_zoom) by (nonlinear_arith);
    }
    let ui_tile_w: u32 = ui_tile.w * options.text_zoom;
    let ui_px_h: u32 = UI_ROWS * (ui_tile.h * options.text_zoom);
    let map_tile_w: u32 = map_tile.w * options.map_zoom;
    let map_tile_h: u32 = map_tile.h * options.map_zoom;
    let mut ui_w: u32 = window.w / ui_tile_w;
    if ui_w < MIN_UI_COLUMNS {
        ui_w = MIN_UI_COLUMNS;
    }
    let above: u32 = if window.h >= ui_px_h {
        window.h - ui_px_h
    } else {
        0
    };
    let map_w: u32 = cover(window.w, window.w, map_tile_w, MIN_MAP_CELLS);
    let map_h: u32 = cover(above, window.h, map_tile_h, MIN_MAP_CELLS);
    MainLayout {
        map: GridLayout {
            cells: Size { w: map_w, h: map_h },
            area_x: 0,
            area_y: 0,
            area_size: Size {
                w: window.w,
                h: if above >= 1 {
                    above
                } else {
                    1
                },
            },
            centered: true,
            zoom: options.map_zoom,
            clear_color: None,
        },
        ui: GridLayout {
            cells: Size { w: ui_w, h: UI_ROWS },
            area_x: 0,
            area_y: above as i32,
            area_size: Size { w: window.w, h: ui_px_h },
            centered: false,
            zoom: options.text_zoom,
            clear_color: Some(black()),
        },
    }
}

/// The colour as it is drawn: as it is on the active mode, at half its
/// brightness on a mode that lies under another.
pub open spec fn spec_recolor(color: Color, active: bool) -> Color {
    if active {
        color
    } else {
        Color { r: color.r / 2, g: color.g / 2, b: color.b / 2 }
    }
}

/// The colour as it is drawn on an active or a suspended mode.
pub fn recolor(color: Color, active: bool) -> (c: Color)
    ensures
        c == spec_recolor(color, active),
{
    if active {
        color
    } else {
        Color { r: color.r / 2, g: color.g / 2, b: color.b / 2 }
    }
}

/// The layout of a grid of `cells` that is centred in a window of `window`
/// pixels and is not cleared.
pub open spec fn spec_centered(cells: Size, window: Size, zoom: u32) -> GridLayout {
    GridLayout {
        cells,
        area_x: 0,
        area_y: 0,
        area_size: window,
        centered: true,
        zoom,
        clear_color: None,
    }
}

/// One call on the renderer.
#[derive(PartialEq, Eq, Debug)]
pub enum DrawCmd {
    /// Tints the whole grid.
    Tint { color: Color },
    /// Draws a box.
    Frame { x: i32, y: i32, w: i32, h: i32, fg: Color, bg: Color },
    /// Prints a string.
    Text { x: i32, y: i32, text: String, fg: Color, bg: Color },
    /// Puts `len` copies of a glyph in a row.
    Glyphs { x: i32, y: i32, len: i32, ch: char, fg: Color, bg: Color },
    /// Gives `len` cells in a row a background.
    Shade { x: i32, y: i32, len: i32, bg: Color },
    /// Draws a bar of `len` cells that is filled by `value` in `max`.
    Bar { x: i32, y: i32, len: i32, value: i32, max: i32, fg: Color },
}

/// The calls for the two main grids.
pub struct MainDraw {
    /// The calls for the grid on which the map is drawn.
    pub map: Vec<DrawCmd>,
    /// The calls for the grid on which the interface is drawn.
    pub ui: Vec<DrawCmd>,
}

/// What a call on the renderer says, with its text as a sequence of
/// characters.
pub enum DrawOp {
    Tint { color: Color },
    Frame { x: i32, y: i32, w: i32, h: i32, fg: Color, bg: Color },
    Text { x: i32, y: i32, text: Seq<char>, fg: Color, bg: Color },
    Glyphs { x: i32, y: i32, len: i32, ch: char, fg: Color, bg: Color },
    Shade { x: i32, y: i32, len: i32, bg: Color },
    Bar { x: i32, y: i32, len: i32, value: i32, max: i32, fg: Color },
}

impl DrawCmd {
    /// What the call says.
    pub open spec fn view(&self) -> DrawOp {
        match self {
            DrawCmd::Tint { color } => DrawOp::Tint { color: *color },
            DrawCmd::Frame { x, y, w, h, fg, bg } => DrawOp::Frame {
                x: *x,
                y: *y,
                w: *w,
                h: *h,
                fg: *fg,
                bg: *bg,
            },
            DrawCmd::Text { x, y, text, fg, bg } => DrawOp::Text {
                x: *x,
                y: *y,
                text: text@,
                fg: *fg,
                bg: *bg,
            },
            DrawCmd::Glyphs { x, y, len, ch, fg, bg } => DrawOp::Glyphs {
                x: *x,
                y: *y,
                len: *len,
                ch: *ch,
                fg: *fg,
                bg: *bg,
            },
            DrawCmd::Shade { x, y, len, bg } => DrawOp::Shade { x: *x, y: *y, len: *len, bg: *bg },
            DrawCmd::Bar { x, y, len, value, max, fg } => DrawOp::Bar {
                x: *x,
                y: *y,
                len: *len,
                value: *value,
                max: *max,
                fg: *fg,
            },
        }
    }
}

/// What a list of calls says, call by call.
pub open spec fn spec_ops(cmds: Seq<DrawCmd>) -> Seq<DrawOp> {
    Seq::new(cmds.len(), |i: int| cmds[i]@)
}

/// The calls of a list that grew by one say what the list said before,
/// followed by what the new call says.
pub proof fn lemma_ops_push(cmds: Seq<DrawCmd>, cmd: DrawCmd)
    ensures
        spec_ops(cmds.push(cmd)) == spec_ops(cmds).push(cmd@),
{
}

/// A number that is too large for the grid counts as the largest that
/// fits.
pub open spec fn spec_clip(n: int) -> int {
    if n > i32::MAX {
        i32::MAX as int
    } else {
        n
    }
}

/// The number as a coordinate of the grid; what is too large counts as the
/// largest that fits.
pub fn clip(n: usize) -> (c: i32)
    ensures
        c == spec_clip(n as int),
{
    if n > 0x7fff_ffff {
        0x7fff_ffff
    } else {
        n as i32
    }
}

/// The text that shows the depth of the dungeon.
pub open spec fn spec_depth_text(depth: int) -> Seq<char> {
    " Depth: "@ + spec_decimal(depth) + " "@
}

/// The text that shows the hit points of the player.
pub open spec fn spec_hp_text(hp: int, max_hp: int) -> Seq<char> {
    " HP: "@ + spec_decimal(hp) + " / "@ + spec_decimal(max_hp) + " "@
}

/// What the status line says: the depth, the hit points, and a bar of the
/// hit points that fills the rest of the line. Each part starts one cell
/// after the end of the part before it.
pub open spec fn spec_status_line(depth: i32, hp: i32, max_hp: i32, width: i32, y: i32) -> Seq<
    DrawOp,
> {
    let depth_text = spec_depth_text(depth as int);
    let hp_text = spec_hp_text(hp as int, max_hp as int);
    let hp_x = 2 + spec_clip(depth_text.len() as int) + 1;
    let bar_x = hp_x + spec_clip(hp_text.len() as int) + 1;
    seq![
        DrawOp::Text { x: 2, y, text: depth_text, fg: yellow(), bg: black() },
        DrawOp::Text { x: hp_x as i32, y, text: hp_text, fg: yellow(), bg: black() },
        DrawOp::Bar {
            x: bar_x as i32,
            y,
            len: (width - bar_x - 2) as i32,
            value: hp,
            max: max_hp,
            fg: red(),
        },
    ]
}

/// The calls that draw the status line in row `y` of a grid `width` cells
/// wide.
pub fn draw_status_line(depth: i32, hp: i32, max_hp: i32, width: i32, y: i32) -> (cmds: Vec<
    DrawCmd,
>)
    requires
        0 <= width,
    ensures
        spec_ops(cmds@) == spec_status_line(depth, hp, max_hp, width, y),
{
    let mut depth_text = String::from_str(" Depth: ");
    depth_text.append(decimal(depth as i64).as_str());
    depth_text.append(" ");
    let mut hp_text = String::from_str(" HP: ");
    hp_text.append(decimal(hp as i64).as_str());
    hp_text.append(" / ");
    hp_text.append(decimal(max_hp as i64).as_str());
    hp_text.append(" ");
    proof {
        crate::text::lemma_decimal_len(depth as int);
        crate::text::lemma_decimal_len(hp as int);
        crate::text::lemma_decimal_len(max_hp as int);
        reveal_strlit(" Depth: ");
        reveal_strlit(" ");
        reveal_strlit(" HP: ");
        reveal_strlit(" / ");
    }
    let depth_len: i32 = clip(text_width(depth_text.as_str()));
    let hp_len: i32 = clip(text_width(hp_text.as_str()));
    let hp_x: i32 = 2 + depth_len + 1;
    let bar_x: i32 = hp_x + hp_len + 1;
    let mut cmds: Vec<DrawCmd> = Vec::new();
    cmds.push(DrawCmd::Text { x: 2, y, text: depth_text, fg: yellow(), bg: black() });
    cmds.push(DrawCmd::Text { x: hp_x, y, text: hp_text, fg: yellow(), bg: black() });
    cmds.push(
        DrawCmd::Bar { x: bar_x, y, len: width - bar_x - 2, value: hp, max: max_hp, fg: red() },
    );
    cmds
}

/// What the first `n` lines of the message area say: in each row from
/// `min_y` down a marker and one message, the newest message first.
pub open spec fn spec_message_lines(log: Seq<Seq<char>>, fg: Color, min_y: i32, n: int) -> Seq<
    DrawOp,
>
    decreases n,
{
    if n <= 0 {
        Seq::empty()
    } else {
        spec_message_lines(log, fg, min_y, n - 1).push(
            DrawOp::Glyphs { x: 0, y: (min_y + n - 1) as i32, len: 1, ch: '>', fg, bg: black() },
        ).push(
            DrawOp::Text {
                x: 2,
                y: (min_y + n - 1) as i32,
                text: log[log.len() - n],
                fg,
                bg: black(),
            },
        )
    }
}

/// The number of messages that are shown in the rows from `min_y` to
/// `max_y`: one for each row, as far as there are messages.
pub open spec fn spec_shown(log_len: int, min_y: int, max_y: int) -> int {
    if max_y < min_y {
        0
    } else if log_len <= max_y - min_y + 1 {
        log_len
    } else {
        max_y - min_y + 1
    }
}

/// The calls that draw the most recent messages in the rows from `min_y`
/// to `max_y`, the newest on top: white when the log is active, gray
/// otherwise.
pub fn draw_messages(messages: &Messages, active: bool, min_y: i32, max_y: i32) -> (cmds: Vec<
    DrawCmd,
>)
    ensures
        spec_ops(cmds@) == spec_message_lines(
            messages@,
            if active {
                white()
            } else {
                gray()
            },
            min_y,
            spec_shown(messages@.len() as int, min_y as int, max_y as int),
        ),
{
    let fg = if active {
        white()
    } else {
        gray()
    };
    let mut cmds: Vec<DrawCmd> = Vec::new();
    let rows: u64 = if max_y < min_y {
        0
    } else {
        (max_y as i64 - min_y as i64 + 1) as u64
    };
    let n: usize = if messages.len() as u64 <= rows {
        messages.len()
    } else {
        rows as usize
    };
    let mut k: usize = 0;
    while k < n
        invariant
            k <= n,
            n <= messages@.len(),
            n == spec_shown(messages@.len() as int, min_y as int, max_y as int),
            spec_ops(cmds@) == spec_message_lines(messages@, fg, min_y, k as int),
        decreases n - k,
    {
        let y: i32 = (min_y as i64 + k as i64) as i32;
        let text = messages.recent(k).unwrap();
        let ghost before = cmds@;
        cmds.push(DrawCmd::Glyphs { x: 0, y, len: 1, ch: '>', fg, bg: black() });
        let ghost marked = cmds@;
        cmds.push(DrawCmd::Text { x: 2, y, text, fg, bg: black() });
        proof {
            lemma_ops_push(before, marked[marked.len() - 1]);
            lemma_ops_push(marked, cmds@[cmds@.len() - 1]);
        }
        k = k + 1;
    }
    cmds
}

/// What the interface grid says: a rule across the top row with the status
/// line on it, the prompt in the row below if there is one, and the
/// messages in what is left. With a prompt the messages are drawn gray.
pub open spec fn spec_ui(state: &GameState, width: i32, height: i32, prompt: Option<Seq<char>>)
    -> Seq<DrawOp> {
    let stats = state.world.spec_stats(state.player).unwrap();
    let head = seq![
        DrawOp::Glyphs { x: 0, y: 0, len: width, ch: '\u{2500}', fg: white(), bg: black() },
    ] + spec_status_line(state.map.depth, stats.hp, stats.max_hp, width, 0);
    match prompt {
        Some(text) => head + seq![DrawOp::Text { x: 2, y: 1, text, fg: white(), bg: black() }]
            + spec_message_lines(
            state.messages@,
            gray(),
            2,
            spec_shown(state.messages@.len() as int, 2, height - 1),
        ),
        None => head + spec_message_lines(
            state.messages@,
            white(),
            1,
            spec_shown(state.messages@.len() as int, 1, height as int),
        ),
    }
}

/// Appends the calls of `more` to `cmds`.
pub fn append_cmds(cmds: &mut Vec<DrawCmd>, more: Vec<DrawCmd>)
    ensures
        spec_ops(final(cmds)@) == spec_ops(old(cmds)@) + spec_ops(more@),
{
    let mut more = more;
    cmds.append(&mut more);
}

/// The calls that draw the interface on a grid of `width` by `height`
/// cells.
pub fn draw_ui(state: &GameState, width: i32, height: i32, prompt: Option<&str>) -> (cmds: Vec<
    DrawCmd,
>)
    requires
        state.wf(),
        0 <= width,
        0 <= height,
    ensures
        spec_ops(cmds@) == spec_ui(
            state,
            width,
            height,
            match prompt {
                Some(p) => Some(p@),
                None => None,
            },
        ),
{
    let stats = state.world.stats(state.player).unwrap();
    let mut cmds: Vec<DrawCmd> = Vec::new();
    cmds.push(DrawCmd::Glyphs { x: 0, y: 0, len: width, ch: '\u{2500}', fg: white(), bg: black() });
    append_cmds(&mut cmds, draw_status_line(state.map.depth, stats.hp, stats.max_hp, width, 0));
    match prompt {
        Some(p) => {
            let ghost head = cmds@;
            cmds.push(
                DrawCmd::Text { x: 2, y: 1, text: String::from_str(p), fg: white(), bg: black() },
            );
            proof {
                lemma_ops_push(head, cmds@[cmds@.len() - 1]);
            }
            append_cmds(&mut cmds, draw_messages(&state.messages, false, 2, height - 1));
        },
        None => {
            append_cmds(&mut cmds, draw_messages(&state.messages, true, 1, height));
        },
    }
    cmds
}

} // verus!
