//! What the terminal screen's escape sequences promise, stated apart from
//! the screen's own model.
use vstd::prelude::*;
use crate::shell::screen::{sgr, sgr_from, Rendition, ScreenView};
use crate::theme::Color;

verus! {

/// The count that a cursor-movement sequence asks for: its first
/// parameter, or 1 where that is missing or 0.
pub open spec fn move_count(p: Seq<u16>) -> int {
    if p.len() > 0 && p[0] > 0 {
        p[0] as int
    } else {
        1
    }
}

/// A 1-based position parameter `p[k]` made 0-based (missing or 0 gives 0).
pub open spec fn position(p: Seq<u16>, k: int) -> int {
    if k < p.len() && p[k] > 0 {
        p[k] - 1
    } else {
        0
    }
}

/// The last row (or column) of a screen `n` rows (columns) large.
pub open spec fn last_index(n: int) -> int {
    if n > 0 {
        n - 1
    } else {
        0
    }
}

/// Cursor movement: `A` moves the cursor up and `B` down by the count,
/// `C` right and `D` left, stopping at the screen's edges; `H`, `f`, `G`
/// and `d` put it at the 1-based position given, kept within the screen.
/// Nothing but the cursor changes.
pub proof fn law_cursor_moves(v: ScreenView, p: Seq<u16>)
    ensures
        v.after_csi(p, 'A') == (ScreenView {
            cursor_row: if v.cursor_row > move_count(p) { v.cursor_row - move_count(p) } else { 0 },
            ..v
        }),
        v.after_csi(p, 'B') == (ScreenView {
            cursor_row: if v.cursor_row + move_count(p) < last_index(v.rows) {
                v.cursor_row + move_count(p)
            } else {
                last_index(v.rows)
            },
            ..v
        }),
        v.after_csi(p, 'C') == (ScreenView {
            cursor_col: if v.cursor_col + move_count(p) < last_index(v.cols) {
                v.cursor_col + move_count(p)
            } else {
                last_index(v.cols)
            },
            ..v
        }),
        v.after_csi(p, 'D') == (ScreenView {
            cursor_col: if v.cursor_col > move_count(p) { v.cursor_col - move_count(p) } else { 0 },
            ..v
        }),
        v.after_csi(p, 'H') == (ScreenView {
            cursor_row: if position(p, 0) < last_index(v.rows) { position(p, 0) } else { last_index(v.rows) },
            cursor_col: if position(p, 1) < last_index(v.cols) { position(p, 1) } else { last_index(v.cols) },
            ..v
        }),
        v.after_csi(p, 'f') == v.after_csi(p, 'H'),
        v.after_csi(p, 'G') == (ScreenView {
            cursor_col: if position(p, 0) < last_index(v.cols) { position(p, 0) } else { last_index(v.cols) },
            ..v
        }),
        v.after_csi(p, 'd') == (ScreenView {
            cursor_row: if position(p, 0) < last_index(v.rows) { position(p, 0) } else { last_index(v.rows) },
            ..v
        }),
{
}

/// Moving up by a count and back down by the same count returns the
/// cursor to its row, where there is room both ways; and likewise left
/// then right.
pub proof fn law_up_then_down(v: ScreenView, p: Seq<u16>)
    requires
        move_count(p) <= v.cursor_row <= last_index(v.rows),
        move_count(p) <= v.cursor_col <= last_index(v.cols),
    ensures
        v.after_csi(p, 'A').after_csi(p, 'B') == v,
        v.after_csi(p, 'D').after_csi(p, 'C') == v,
{
    law_cursor_moves(v, p);
    law_cursor_moves(v.after_csi(p, 'A'), p);
    law_cursor_moves(v.after_csi(p, 'D'), p);
}

/// What each single graphic-rendition code does to the rendition
/// (foreground, background, bold): 0 resets all three; 1 sets bold and 22
/// clears it; 30–37 and 90–97 set the foreground to the normal and bright
/// colors and 39 resets it; 40–47, 100–107 and 49 do the same to the
/// background; any other code on its own changes nothing.
pub proof fn law_sgr_codes(c: u16, st: Rendition)
    ensures
        c == 0 ==> sgr(seq![c], st) == (None::<Color>, None::<Color>, false),
        c == 1 ==> sgr(seq![c], st) == (st.0, st.1, true),
        c == 22 ==> sgr(seq![c], st) == (st.0, st.1, false),
        c == 39 ==> sgr(seq![c], st) == (None::<Color>, st.1, st.2),
        c == 49 ==> sgr(seq![c], st) == (st.0, None::<Color>, st.2),
        c == 30 ==> sgr(seq![c], st) == (Some(Color::Black), st.1, st.2),
        c == 31 ==> sgr(seq![c], st) == (Some(Color::Red), st.1, st.2),
        c == 32 ==> sgr(seq![c], st) == (Some(Color::Green), st.1, st.2),
        c == 33 ==> sgr(seq![c], st) == (Some(Color::Yellow), st.1, st.2),
        c == 34 ==> sgr(seq![c], st) == (Some(Color::Blue), st.1, st.2),
        c == 35 ==> sgr(seq![c], st) == (Some(Color::Magenta), st.1, st.2),
        c == 36 ==> sgr(seq![c], st) == (Some(Color::Cyan), st.1, st.2),
        c == 37 ==> sgr(seq![c], st) == (Some(Color::White), st.1, st.2),
        c == 40 ==> sgr(seq![c], st) == (st.0, Some(Color::Black), st.2),
        c == 41 ==> sgr(seq![c], st) == (st.0, Some(Color::Red), st.2),
        c == 42 ==> sgr(seq![c], st) == (st.0, Some(Color::Green), st.2),
        c == 43 ==> sgr(seq![c], st) == (st.0, Some(Color::Yellow), st.2),
        c == 44 ==> sgr(seq![c], st) == (st.0, Some(Color::Blue), st.2),
        c == 45 ==> sgr(seq![c], st) == (st.0, Some(Color::Magenta), st.2),
        c == 46 ==> sgr(seq![c], st) == (st.0, Some(Color::Cyan), st.2),
        c == 47 ==> sgr(seq![c], st) == (st.0, Some(Color::White), st.2),
        c == 90 ==> sgr(seq![c], st) == (Some(Color::DarkGray), st.1, st.2),
        c == 91 ==> sgr(seq![c], st) == (Some(Color::LightRed), st.1, st.2),
        c == 92 ==> sgr(seq![c], st) == (Some(Color::LightGreen), st.1, st.2),
        c == 93 ==> sgr(seq![c], st) == (Some(Color::LightYellow), st.1, st.2),
        c == 94 ==> sgr(seq![c], st) == (Some(Color::LightBlue), st.1, st.2),
        c == 95 ==> sgr(seq![c], st) == (Some(Color::LightMagenta), st.1, st.2),
        c == 96 ==> sgr(seq![c], st) == (Some(Color::LightCyan), st.1, st.2),
        c == 97 ==> sgr(seq![c], st) == (Some(Color::White), st.1, st.2),
        c == 100 ==> sgr(seq![c], st) == (st.0, Some(Color::DarkGray), st.2),
        c == 101 ==> sgr(seq![c], st) == (st.0, Some(Color::LightRed), st.2),
        c == 102 ==> sgr(seq![c], st) == (st.0, Some(Color::LightGreen), st.2),
        c == 103 ==> sgr(seq![c], st) == (st.0, Some(Color::LightYellow), st.2),
        c == 104 ==> sgr(seq![c], st) == (st.0, Some(Color::LightBlue), st.2),
        c == 105 ==> sgr(seq![c], st) == (st.0, Some(Color::LightMagenta), st.2),
        c == 106 ==> sgr(seq![c], st) == (st.0, Some(Color::LightCyan), st.2),
        c == 107 ==> sgr(seq![c], st) == (st.0, Some(Color::White), st.2),
        !(c == 0 || c == 1 || c == 22 || c == 39 || c == 49 || (30 <= c <= 37) || (40 <= c <= 47) || (90
            <= c <= 97) || (100 <= c <= 107)) ==> sgr(seq![c], st) == st,
{
    reveal_with_fuel(sgr_from, 2);
}

/// A rendition sequence applies its codes from left to right: a code
/// other than the extended-color introducers 38 and 48 acts as it does
/// alone, and the codes after it act on the result.
pub proof fn law_sgr_left_to_right(p: Seq<u16>, i: int, st: Rendition)
    requires
        0 <= i < p.len(),
        p[i] != 38 && p[i] != 48,
    ensures
        sgr_from(p, i, st) == sgr_from(p, i + 1, sgr(seq![p[i]], st)),
{
    reveal_with_fuel(sgr_from, 2);
}

} // verus!
