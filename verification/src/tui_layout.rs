//! Geometry and text of the terminal client's bottom panel: how the rows
//! are shared, what the footer says, and where the slash-command palette
//! opens and which commands it shows.  Drawing is the caller's part.

use vstd::prelude::*;
use crate::cli::{compact_path, compact_path_of, short_id, short_id_of};
use crate::text::{chars_of, push_str, to_string};

verus! {

/// A screen rectangle in cells.
#[derive(Clone, Copy, Debug, PartialEq, Eq, Structural)]
pub struct Rect {
    pub x: u16,
    pub y: u16,
    pub width: u16,
    pub height: u16,
}

/// A rectangle that lies on the screen: its far edges fit in `u16`.
pub open spec fn on_screen(r: Rect) -> bool {
    r.x + r.width <= u16::MAX && r.y + r.height <= u16::MAX
}

/// How the bottom panel shares its rows, top to bottom.
#[derive(Clone, Copy, Debug, PartialEq, Eq, Structural)]
pub struct PanelRows {
    pub buffer: u16,
    pub composer: u16,
    pub footer: u16,
}

/// `a - b`, or 0 below zero.
pub open spec fn sat_sub(a: int, b: int) -> int {
    if a > b {
        a - b
    } else {
        0
    }
}

/// The smaller of two integers.
pub open spec fn min_int(a: int, b: int) -> int {
    if a < b {
        a
    } else {
        b
    }
}

/// The larger of two integers.
pub open spec fn max_int(a: int, b: int) -> int {
    if a > b {
        a
    } else {
        b
    }
}

/// Splits a panel of `height` rows: one footer row, one blank row above
/// the composer when there is room for it, and the rest for the composer.
pub fn panel_rows(height: u16) -> (r: PanelRows)
    ensures
        r.footer == 1,
        r.buffer == min_int(sat_sub(height as int, 2), 1),
        r.composer == sat_sub(height as int, 1 + r.buffer),
        height >= 2 ==> r.buffer + r.composer + r.footer == height,
{
    let footer: u16 = 1;
    let rest: u16 = height.saturating_sub(footer + 1);
    let buffer: u16 = if rest < 1 { rest } else { 1 };
    let composer: u16 = height.saturating_sub(footer + buffer);
    PanelRows { buffer, composer, footer }
}

/// The footer line: model, working directory (shortened), session (its
/// first eight bytes) and the key hints of the current state.
pub open spec fn footer_line(model_name: Seq<char>, working_dir: Seq<char>, session: Option<Seq<char>>, streaming: bool) -> Seq<
    char,
> {
    let model = if model_name.len() == 0 {
        "model: pending"@
    } else {
        model_name
    };
    let cwd = if working_dir.len() == 0 {
        "cwd pending"@
    } else {
        compact_path_of(working_dir)
    };
    let sid = match session {
        Some(id) => short_id_of(id),
        None => "none"@,
    };
    let hints = if streaming {
        "Esc stop"@
    } else {
        "Enter send · Shift+Enter newline · /help"@
    };
    "  "@ + model + " · "@ + cwd + " · session "@ + sid + "   "@ + hints
}

fn is_empty_text(s: &str) -> (r: bool)
    ensures
        r <==> s@.len() == 0,
{
    chars_of(s).len() == 0
}

/// Writes the footer line.
pub fn footer_text(model_name: &str, working_dir: &str, active_session_id: Option<&str>, is_streaming: bool) -> (r: String)
    ensures
        r@ == footer_line(
            model_name@,
            working_dir@,
            match active_session_id {
                Some(id) => Some(id@),
                None => None,
            },
            is_streaming,
        ),
{
    let model = if is_empty_text(model_name) {
        to_string("model: pending")
    } else {
        to_string(model_name)
    };
    let cwd = if is_empty_text(working_dir) {
        to_string("cwd pending")
    } else {
        compact_path(working_dir)
    };
    let session = match active_session_id {
        Some(id) => short_id(id),
        None => to_string("none"),
    };
    proof {
        reveal_strlit("model: pending");
        reveal_strlit("cwd pending");
        reveal_strlit("none");
    }
    let mut r = to_string("  ");
    push_str(&mut r, model.as_str());
    push_str(&mut r, " · ");
    push_str(&mut r, cwd.as_str());
    push_str(&mut r, " · session ");
    push_str(&mut r, session.as_str());
    push_str(&mut r, "   ");
    if is_streaming {
        push_str(&mut r, "Esc stop");
    } else {
        push_str(&mut r, "Enter send · Shift+Enter newline · /help");
    }
    r
}

/// Where the slash palette opens and which commands it lists.
#[derive(Clone, Copy, Debug, PartialEq, Eq, Structural)]
pub struct PalettePlacement {
    /// How many commands fit in the list.
    pub visible: usize,
    /// The first listed command.
    pub start: usize,
    /// The highlighted command.
    pub selected: usize,
    /// The popup, border included.
    pub popup: Rect,
}

/// The palette for `count` commands over `area`, with `selected_hint` the
/// selection (clamped to the last command): the list holds as many rows as
/// fit under the panel's top row, framed by a border; it scrolls so that
/// the selection is its last row once the selection passes the first page;
/// the popup takes 70% of the width (at least 24 cells, at most the
/// width), is centered, and sits 3 rows above the bottom where they fit.
pub open spec fn palette_spec(area: Rect, count: int, selected_hint: int) -> PalettePlacement {
    let max_height = max_int(sat_sub(area.height as int, 1), 1);
    let visible = min_int(count, max_int(sat_sub(max_height, 2), 1));
    let selected = min_int(selected_hint, count - 1);
    let start = sat_sub(selected + 1, visible);
    let height = min_int(visible + 2, max_height);
    let popup_width = min_int(max_int(area.width as int * 70 / 100, 24), area.width as int);
    let popup_height = min_int(height, area.height as int);
    let bottom_gap = min_int(3, sat_sub(area.height as int, popup_height));
    PalettePlacement {
        visible: visible as usize,
        start: start as usize,
        selected: selected as usize,
        popup: Rect {
            x: (area.x + sat_sub(area.width as int, popup_width) / 2) as u16,
            y: (area.y + sat_sub(area.height as int, popup_height + bottom_gap)) as u16,
            width: popup_width as u16,
            height: popup_height as u16,
        },
    }
}

/// Places the slash palette; `None` when no command matches.  The
/// selected command is always among the listed ones, and the popup lies
/// inside the area.
pub fn palette_placement(area: Rect, command_count: usize, slash_selected: usize) -> (r: Option<PalettePlacement>)
    requires
        on_screen(area),
    ensures
        command_count == 0 ==> r is None,
        command_count > 0 ==> (r matches Some(p) && {
            &&& p == palette_spec(area, command_count as int, slash_selected as int)
            &&& p.start <= p.selected < p.start + p.visible <= command_count
            &&& 1 <= p.visible
            &&& area.x <= p.popup.x && p.popup.x + p.popup.width <= area.x + area.width
            &&& area.y <= p.popup.y && p.popup.y + p.popup.height <= area.y + area.height
        }),
{
    if command_count == 0 {
        return None;
    }
    let max_height: u16 = {
        let h: u16 = area.height.saturating_sub(1);
        if h > 1 { h } else { 1 }
    };
    let rows: u16 = {
        let m: u16 = max_height.saturating_sub(2);
        if m > 1 { m } else { 1 }
    };
    let visible: usize = if command_count < rows as usize { command_count } else { rows as usize };
    let selected: usize = if slash_selected < command_count - 1 { slash_selected } else { command_count - 1 };
    let start: usize = (selected + 1).saturating_sub(visible);
    let framed: u16 = visible as u16 + 2;
    let height: u16 = if framed < max_height { framed } else { max_height };
    let scaled: u16 = (area.width as u32 * 70 / 100) as u16;
    let widened: u16 = if scaled > 24 { scaled } else { 24 };
    let popup_width: u16 = if widened < area.width { widened } else { area.width };
    let popup_height: u16 = if height < area.height { height } else { area.height };
    let room: u16 = area.height - popup_height;
    let bottom_gap: u16 = if 3 < room { 3 } else { room };
    let popup = Rect {
        x: area.x + (area.width - popup_width) / 2,
        y: area.y + (area.height - (popup_height + bottom_gap)),
        width: popup_width,
        height: popup_height,
    };
    Some(PalettePlacement { visible, start, selected, popup })
}

// ─── Inline terminal ────────────────────────────────────────────────────

/// Rows the bottom panel keeps at the foot of the terminal.
pub const BOTTOM_PANEL_HEIGHT: u16 = 4;

/// Where the terminal cursor goes in the composer `area`: the cursor's
/// column and row within the composer (the column counting the two-column
/// prompt prefix), clamped to the composer's last column and row.
pub fn composer_cursor(area: Rect, column: u16, row: u16) -> (r: (u16, u16))
    requires
        on_screen(area),
    ensures
        r.0 == area.x + if area.width == 0 { 0 } else if column <= area.width - 1 { column as int } else { area.width - 1 },
        r.1 == area.y + if area.height == 0 { 0 } else if row <= area.height - 1 { row as int } else { area.height - 1 },
{
    let last_column = area.width.saturating_sub(1);
    let last_row = area.height.saturating_sub(1);
    let cx = if column <= last_column { column } else { last_column };
    let cy = if row <= last_row { row } else { last_row };
    (area.x + cx, area.y + cy)
}

/// The columns the composer's text wraps at: the width less its prompt
/// and margins, at least one.
pub fn composer_width(terminal_width: u16) -> (r: usize)
    ensures
        r == max_int(sat_sub(terminal_width as int, 4), 1),
{
    let w: u16 = terminal_width.saturating_sub(4);
    if w > 1 { w as usize } else { 1 }
}

/// The first row of the bottom panel.
pub fn panel_top(terminal_height: u16) -> (r: u16)
    ensures
        r == sat_sub(terminal_height as int, BOTTOM_PANEL_HEIGHT as int),
{
    terminal_height.saturating_sub(BOTTOM_PANEL_HEIGHT)
}

/// The row where `line_count` history lines start once the screen has
/// scrolled up to make room above the panel: right above the panel, or
/// the top row when they do not fit.
pub fn scrollback_start(terminal_height: u16, line_count: u16) -> (r: u16)
    ensures
        r == sat_sub(sat_sub(terminal_height as int, BOTTOM_PANEL_HEIGHT as int), line_count as int),
        r + line_count <= max_int(sat_sub(terminal_height as int, BOTTOM_PANEL_HEIGHT as int), line_count as int),
{
    panel_top(terminal_height).saturating_sub(line_count)
}

/// A color of the drawing library's palette.
#[derive(Clone, Copy, Debug, PartialEq, Eq, Structural)]
pub enum Color {
    Reset,
    Black,
    Red,
    Green,
    Yellow,
    Blue,
    Magenta,
    Cyan,
    Gray,
    DarkGray,
    LightRed,
    LightGreen,
    LightYellow,
    LightBlue,
    LightMagenta,
    LightCyan,
    White,
    Rgb(u8, u8, u8),
    Indexed(u8),
}

/// A color the terminal is told to use.
#[derive(Clone, Copy, Debug, PartialEq, Eq, Structural)]
pub enum TermColor {
    Reset,
    Black,
    DarkGrey,
    Red,
    DarkRed,
    Green,
    DarkGreen,
    Yellow,
    DarkYellow,
    Blue,
    DarkBlue,
    Magenta,
    DarkMagenta,
    Cyan,
    DarkCyan,
    White,
    Grey,
    Rgb { r: u8, g: u8, b: u8 },
    AnsiValue(u8),
}

/// The terminal color written for a palette color: named colors keep
/// their name (gray as grey), the light variants are written as the
/// terminal's dark ones, and RGB and indexed colors pass through.
pub open spec fn term_color_of(c: Color) -> TermColor {
    match c {
        Color::Reset => TermColor::Reset,
        Color::Black => TermColor::Black,
        Color::Red => TermColor::Red,
        Color::Green => TermColor::Green,
        Color::Yellow => TermColor::Yellow,
        Color::Blue => TermColor::Blue,
        Color::Magenta => TermColor::Magenta,
        Color::Cyan => TermColor::Cyan,
        Color::Gray => TermColor::Grey,
        Color::DarkGray => TermColor::DarkGrey,
        Color::LightRed => TermColor::DarkRed,
        Color::LightGreen => TermColor::DarkGreen,
        Color::LightYellow => TermColor::DarkYellow,
        Color::LightBlue => TermColor::DarkBlue,
        Color::LightMagenta => TermColor::DarkMagenta,
        Color::LightCyan => TermColor::DarkCyan,
        Color::White => TermColor::White,
        Color::Rgb(r, g, b) => TermColor::Rgb { r, g, b },
        Color::Indexed(i) => TermColor::AnsiValue(i),
    }
}

/// Translates a palette color for the terminal.
pub fn term_color(c: Color) -> (r: TermColor)
    ensures
        r == term_color_of(c),
{
    match c {
        Color::Reset => TermColor::Reset,
        Color::Black => TermColor::Black,
        Color::Red => TermColor::Red,
        Color::Green => TermColor::Green,
        Color::Yellow => TermColor::Yellow,
        Color::Blue => TermColor::Blue,
        Color::Magenta => TermColor::Magenta,
        Color::Cyan => TermColor::Cyan,
        Color::Gray => TermColor::Grey,
        Color::DarkGray => TermColor::DarkGrey,
        Color::LightRed => TermColor::DarkRed,
        Color::LightGreen => TermColor::DarkGreen,
        Color::LightYellow => TermColor::DarkYellow,
        Color::LightBlue => TermColor::DarkBlue,
        Color::LightMagenta => TermColor::DarkMagenta,
        Color::LightCyan => TermColor::DarkCyan,
        Color::White => TermColor::White,
        Color::Rgb(r, g, b) => TermColor::Rgb { r, g, b },
        Color::Indexed(i) => TermColor::AnsiValue(i),
    }
}

} // verus!
