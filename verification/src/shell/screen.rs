//! The shell pane's screen: a grid of cells that the terminal escape-sequence
//! parser writes into, with a cursor, the current graphic rendition and a
//! scroll region.
use vstd::prelude::*;
use crate::theme::Color;
use crate::shell::cwd::{cwd_from_osc, osc_cwd};


verus! {

/// A single cell in the terminal screen buffer.
#[derive(Clone, Copy, PartialEq, Eq, Structural, Debug)]
pub struct Cell {
    pub c: char,
    pub fg: Option<Color>,
    pub bg: Option<Color>,
    pub bold: bool,
}

/// A space with the default colors.
pub open spec fn blank() -> Cell {
    Cell { c: ' ', fg: None, bg: None, bold: false }
}

pub open spec fn blank_row(n: int) -> Seq<Cell> {
    Seq::new(n as nat, |i: int| blank())
}

impl Default for Cell {
    fn default() -> (c: Cell)
        ensures
            c == blank(),
    {
        Cell { c: ' ', fg: None, bg: None, bold: false }
    }
}

/// `x - 1`, or 0 for 0.
pub open spec fn sat_dec(x: int) -> int {
    if x > 0 {
        x - 1
    } else {
        0
    }
}

pub open spec fn min_of(a: int, b: int) -> int {
    if a <= b {
        a
    } else {
        b
    }
}

/// `cells` with each cell at `(r, k)` for which `hit(r, k)` holds made blank.
pub open spec fn blanked(cells: Seq<Seq<Cell>>, hit: spec_fn(int, int) -> bool) -> Seq<Seq<Cell>> {
    Seq::new(
        cells.len(),
        |r: int| Seq::new(cells[r].len(), |k: int| if hit(r, k) { blank() } else { cells[r][k] }),
    )
}

/// The first parameter, where there is one.
pub open spec fn param0(p: Seq<u16>) -> Option<u16> {
    if p.len() > 0 {
        Some(p[0])
    } else {
        None
    }
}

/// The second parameter, where there is one.
pub open spec fn param1(p: Seq<u16>) -> Option<u16> {
    if p.len() > 1 {
        Some(p[1])
    } else {
        None
    }
}

/// A count parameter: the given value, at least 1, or 1 where it is missing.
pub open spec fn count_of(v: Option<u16>) -> int {
    match v {
        Some(n) => if n >= 1 {
            n as int
        } else {
            1
        },
        None => 1,
    }
}

/// A 1-based position parameter, turned 0-based (missing or 0 gives 0).
pub open spec fn pos_of(v: Option<u16>) -> int {
    count_of(v) - 1
}

/// The color of SGR codes 30..=37 and 40..=47 (offset `k` from the base).
pub open spec fn normal_color(k: int) -> Color {
    if k == 0 {
        Color::Black
    } else if k == 1 {
        Color::Red
    } else if k == 2 {
        Color::Green
    } else if k == 3 {
        Color::Yellow
    } else if k == 4 {
        Color::Blue
    } else if k == 5 {
        Color::Magenta
    } else if k == 6 {
        Color::Cyan
    } else {
        Color::White
    }
}

/// The color of SGR codes 90..=97 and 100..=107 (offset `k` from the base).
pub open spec fn bright_color(k: int) -> Color {
    if k == 0 {
        Color::DarkGray
    } else if k == 1 {
        Color::LightRed
    } else if k == 2 {
        Color::LightGreen
    } else if k == 3 {
        Color::LightYellow
    } else if k == 4 {
        Color::LightBlue
    } else if k == 5 {
        Color::LightMagenta
    } else if k == 6 {
        Color::LightCyan
    } else {
        Color::White
    }
}

/// The graphic rendition: foreground, background, bold.
pub type Rendition = (Option<Color>, Option<Color>, bool);

/// An extended color `38;5;n` / `48;5;n` or `38;2;r;g;b` / `48;2;r;g;b`
/// starting at `p[i]`: the color and how many parameters it takes after
/// `p[i]`; `None` where the parameters that follow do not form one.
pub open spec fn extended_color(p: Seq<u16>, i: int) -> Option<(Color, int)> {
    if i + 1 < p.len() && p[i + 1] == 5 {
        if i + 2 < p.len() {
            Some((Color::Indexed(p[i + 2] as u8), 2))
        } else {
            None
        }
    } else if i + 1 < p.len() && p[i + 1] == 2 {
        if i + 4 < p.len() {
            Some((Color::Rgb(p[i + 2] as u8, p[i + 3] as u8, p[i + 4] as u8), 4))
        } else {
            None
        }
    } else {
        None
    }
}

/// The rendition after the SGR parameters `p[i..]` are applied to `st`.
pub open spec fn sgr_from(p: Seq<u16>, i: int, st: Rendition) -> Rendition
    decreases p.len() - i,
{
    if i < 0 || i >= p.len() {
        st
    } else {
        let code = p[i] as int;
        if code == 38 || code == 48 {
            match extended_color(p, i) {
                Some((color, used)) => sgr_from(
                    p,
                    i + used + 1,
                    if code == 38 {
                        (Some(color), st.1, st.2)
                    } else {
                        (st.0, Some(color), st.2)
                    },
                ),
                None => sgr_from(p, i + 1, st),
            }
        } else {
            let next = if code == 0 {
                (None, None, false)
            } else if code == 1 {
                (st.0, st.1, true)
            } else if code == 22 {
                (st.0, st.1, false)
            } else if 30 <= code <= 37 {
                (Some(normal_color(code - 30)), st.1, st.2)
            } else if code == 39 {
                (None, st.1, st.2)
            } else if 40 <= code <= 47 {
                (st.0, Some(normal_color(code - 40)), st.2)
            } else if code == 49 {
                (st.0, None, st.2)
            } else if 90 <= code <= 97 {
                (Some(bright_color(code - 90)), st.1, st.2)
            } else if 100 <= code <= 107 {
                (st.0, Some(bright_color(code - 100)), st.2)
            } else {
                st
            };
            sgr_from(p, i + 1, next)
        }
    }
}

/// The rendition that an SGR sequence with parameters `p` leaves: no
/// parameters reset it.
pub open spec fn sgr(p: Seq<u16>, st: Rendition) -> Rendition {
    if p.len() == 0 {
        (None, None, false)
    } else {
        sgr_from(p, 0, st)
    }
}

/// `row` after `n` chars at `col` are deleted one at a time: each shifts
/// the cells after it left, and a blank comes in at the end.
pub open spec fn delete_chars(row: Seq<Cell>, col: int, n: int) -> Seq<Cell>
    decreases n,
{
    if n <= 0 {
        row
    } else {
        let r = delete_chars(row, col, n - 1);
        if col < r.len() {
            r.remove(col).push(blank())
        } else {
            r
        }
    }
}

/// `row` after `n` blanks are inserted at `col` one at a time, the row cut
/// back to `width` cells after each.
pub open spec fn insert_chars(row: Seq<Cell>, col: int, n: int, width: int) -> Seq<Cell>
    decreases n,
{
    if n <= 0 {
        row
    } else {
        let r = insert_chars(row, col, n - 1, width);
        if col < r.len() {
            let grown = r.insert(col, blank());
            if grown.len() > width {
                grown.take(width)
            } else {
                grown
            }
        } else {
            r
        }
    }
}

/// The rows of a grid of cells, as sequences.
pub open spec fn grid(cells: Seq<Vec<Cell>>) -> Seq<Seq<Cell>> {
    Seq::new(cells.len(), |r: int| cells[r]@)
}

/// What the screen holds, as mathematical values.
pub struct ScreenView {
    pub cells: Seq<Seq<Cell>>,
    pub cursor_row: int,
    pub cursor_col: int,
    pub rows: int,
    pub cols: int,
    pub fg: Option<Color>,
    pub bg: Option<Color>,
    pub bold: bool,
    pub scroll_top: int,
    pub scroll_bottom: int,
    pub reported_cwd: Option<Seq<char>>,
}

impl ScreenView {
    pub open spec fn last_row(self) -> int {
        sat_dec(self.rows)
    }

    pub open spec fn last_col(self) -> int {
        sat_dec(self.cols)
    }

    /// The shape that every operation keeps: `rows` rows (for a screen
    /// with rows) of `cols` cells, and the cursor and the scroll region
    /// within them.
    pub open spec fn wf(self) -> bool {
        &&& self.rows <= isize::MAX
        &&& self.cols <= isize::MAX
        &&& self.rows > 0 ==> self.cells.len() == self.rows
        &&& forall|r: int| 0 <= r < self.cells.len() ==> #[trigger] self.cells[r].len() == self.cols
        &&& 0 <= self.cursor_row <= self.last_row()
        &&& 0 <= self.cursor_col <= self.cols
        &&& 0 <= self.scroll_top
        &&& 0 <= self.scroll_bottom <= self.last_row()
    }

    pub open spec fn with_cells(self, cells: Seq<Seq<Cell>>) -> ScreenView {
        ScreenView { cells: cells, ..self }
    }

    /// The screen resized: rows cut or padded with blank rows, each row cut
    /// or padded to `cols`, the cursor pulled within it and the scroll
    /// region's bottom set to the last row.
    pub open spec fn after_resize(self, rows: int, cols: int) -> ScreenView {
        ScreenView {
            cells: Seq::new(
                rows as nat,
                |r: int| if r < self.cells.len() { fit_row(self.cells[r], cols) } else { blank_row(cols) },
            ),
            rows: rows,
            cols: cols,
            cursor_row: if self.cursor_row >= rows { sat_dec(rows) } else { self.cursor_row },
            cursor_col: if self.cursor_col >= cols { sat_dec(cols) } else { self.cursor_col },
            scroll_bottom: sat_dec(rows),
            ..self
        }
    }

    /// The scroll region moves up a line: its top row goes and a blank row
    /// comes in at its bottom.
    pub open spec fn after_scroll_up(self) -> ScreenView {
        if self.scroll_top < self.scroll_bottom && self.scroll_bottom < self.rows {
            self.with_cells(
                self.cells.remove(self.scroll_top).insert(self.scroll_bottom, blank_row(self.cols)),
            )
        } else {
            self
        }
    }

    /// The cursor moves down a line; past the scroll region's bottom it
    /// stays there and the region scrolls.
    pub open spec fn after_line_feed(self) -> ScreenView {
        if self.cursor_row + 1 > self.scroll_bottom {
            ScreenView { cursor_row: self.scroll_bottom, ..self }.after_scroll_up()
        } else {
            ScreenView { cursor_row: self.cursor_row + 1, ..self }
        }
    }

    /// `c` is written at the cursor with the current rendition, after
    /// wrapping to the next line when the cursor is past the last column.
    pub open spec fn after_put_char(self, c: char) -> ScreenView {
        let s = if self.cursor_col >= self.cols {
            ScreenView { cursor_col: 0, ..self }.after_line_feed()
        } else {
            self
        };
        if s.cursor_row < s.rows && s.cursor_col < s.cols {
            ScreenView {
                cells: s.cells.update(
                    s.cursor_row,
                    s.cells[s.cursor_row].update(
                        s.cursor_col,
                        Cell { c: c, fg: s.fg, bg: s.bg, bold: s.bold },
                    ),
                ),
                cursor_col: s.cursor_col + 1,
                ..s
            }
        } else {
            s
        }
    }

    pub open spec fn after_execute(self, byte: u8) -> ScreenView {
        if byte == 0x08 {
            ScreenView { cursor_col: sat_dec(self.cursor_col), ..self }
        } else if byte == 0x09 {
            ScreenView {
                cursor_col: min_of((self.cursor_col / 8 + 1) * 8, self.last_col()),
                ..self
            }
        } else if byte == 0x0A {
            self.after_line_feed()
        } else if byte == 0x0D {
            ScreenView { cursor_col: 0, ..self }
        } else {
            self
        }
    }

    /// The cursor's row blanked from column `from` up to (not including) `to`.
    pub open spec fn cursor_row_blanked(self, from: int, to: int) -> ScreenView {
        if self.cursor_row < self.rows {
            self.with_cells(
                blanked(self.cells, |r: int, k: int| r == self.cursor_row && from <= k < to),
            )
        } else {
            self
        }
    }

    pub open spec fn after_clear_line_from_cursor(self) -> ScreenView {
        self.cursor_row_blanked(self.cursor_col, self.cols)
    }

    pub open spec fn after_clear_line_to_cursor(self) -> ScreenView {
        self.cursor_row_blanked(0, min_of(self.cursor_col, self.last_col()) + 1)
    }

    pub open spec fn after_clear_entire_line(self) -> ScreenView {
        self.cursor_row_blanked(0, self.cols)
    }

    /// Whole rows `from..to` blanked.
    pub open spec fn rows_blanked(self, from: int, to: int) -> ScreenView {
        self.with_cells(blanked(self.cells, |r: int, k: int| from <= r < to && k < self.cols))
    }

    pub open spec fn after_clear_screen_from_cursor(self) -> ScreenView {
        self.after_clear_line_from_cursor().rows_blanked(self.cursor_row + 1, self.rows)
    }

    pub open spec fn after_clear_screen_to_cursor(self) -> ScreenView {
        self.after_clear_line_to_cursor().rows_blanked(0, self.cursor_row)
    }

    pub open spec fn after_clear_entire_screen(self) -> ScreenView {
        self.rows_blanked(0, self.rows)
    }

    /// One step of IL: the scroll region's bottom row goes and a blank row
    /// comes in at the cursor.
    pub open spec fn insert_line_once(self, cells: Seq<Seq<Cell>>) -> Seq<Seq<Cell>> {
        if self.cursor_row <= self.scroll_bottom {
            let c = if self.scroll_bottom < self.rows {
                cells.remove(self.scroll_bottom)
            } else {
                cells
            };
            c.insert(self.cursor_row, blank_row(self.cols))
        } else {
            cells
        }
    }

    pub open spec fn insert_lines(self, n: int) -> Seq<Seq<Cell>>
        decreases n,
    {
        if n <= 0 {
            self.cells
        } else {
            self.insert_line_once(self.insert_lines(n - 1))
        }
    }

    /// One step of DL: the cursor's row goes and a blank row comes in at the
    /// scroll region's bottom.
    pub open spec fn delete_line_once(self, cells: Seq<Seq<Cell>>) -> Seq<Seq<Cell>> {
        if self.cursor_row <= self.scroll_bottom {
            let c = cells.remove(self.cursor_row);
            if self.scroll_bottom < self.rows {
                c.insert(self.scroll_bottom, blank_row(self.cols))
            } else {
                c
            }
        } else {
            cells
        }
    }

    pub open spec fn delete_lines(self, n: int) -> Seq<Seq<Cell>>
        decreases n,
    {
        if n <= 0 {
            self.cells
        } else {
            self.delete_line_once(self.delete_lines(n - 1))
        }
    }

    /// The cursor's row with `f` applied, where the cursor is on a row.
    pub open spec fn cursor_row_as(self, row: Seq<Cell>) -> ScreenView {
        if self.cursor_row < self.rows {
            self.with_cells(self.cells.update(self.cursor_row, row))
        } else {
            self
        }
    }

    /// Inputs on which a CSI sequence stays within the screen.
    pub open spec fn csi_ok(self, p: Seq<u16>, c: char) -> bool {
        &&& (c == 'M' && self.rows == 0) ==> self.cells.len() >= count_of(param0(p))
        &&& ((c == 'J' || c == 'K') && param0(p) == Some(1u16)) ==> !(self.cols == 0
            && self.cursor_row < self.rows)
    }

    /// The effect of the CSI sequence with parameters `p` and final char `c`.
    pub open spec fn after_csi(self, p: Seq<u16>, c: char) -> ScreenView {
        let n = count_of(param0(p));
        if c == 'A' {
            ScreenView { cursor_row: if self.cursor_row >= n { self.cursor_row - n } else { 0 }, ..self }
        } else if c == 'B' {
            ScreenView { cursor_row: min_of(self.cursor_row + n, self.last_row()), ..self }
        } else if c == 'C' {
            ScreenView { cursor_col: min_of(self.cursor_col + n, self.last_col()), ..self }
        } else if c == 'D' {
            ScreenView { cursor_col: if self.cursor_col >= n { self.cursor_col - n } else { 0 }, ..self }
        } else if c == 'H' || c == 'f' {
            ScreenView {
                cursor_row: min_of(pos_of(param0(p)), self.last_row()),
                cursor_col: min_of(pos_of(param1(p)), self.last_col()),
                ..self
            }
        } else if c == 'J' {
            match param0(p) {
                None => self.after_clear_screen_from_cursor(),
                Some(m) => if m == 0 {
                    self.after_clear_screen_from_cursor()
                } else if m == 1 {
                    self.after_clear_screen_to_cursor()
                } else if m == 2 || m == 3 {
                    self.after_clear_entire_screen()
                } else {
                    self
                },
            }
        } else if c == 'K' {
            match param0(p) {
                None => self.after_clear_line_from_cursor(),
                Some(m) => if m == 0 {
                    self.after_clear_line_from_cursor()
                } else if m == 1 {
                    self.after_clear_line_to_cursor()
                } else if m == 2 {
                    self.after_clear_entire_line()
                } else {
                    self
                },
            }
        } else if c == 'm' {
            let st = sgr(p, (self.fg, self.bg, self.bold));
            ScreenView { fg: st.0, bg: st.1, bold: st.2, ..self }
        } else if c == 'r' {
            let bottom = match param1(p) {
                Some(b) => pos_of(Some(b)),
                None => pos_of(Some(self.rows as u16)),
            };
            ScreenView {
                scroll_top: min_of(pos_of(param0(p)), self.last_row()),
                scroll_bottom: min_of(bottom, self.last_row()),
                ..self
            }
        } else if c == 'L' {
            self.with_cells(self.insert_lines(n))
        } else if c == 'M' {
            self.with_cells(self.delete_lines(n))
        } else if c == 'G' {
            ScreenView { cursor_col: min_of(pos_of(param0(p)), self.last_col()), ..self }
        } else if c == 'd' {
            ScreenView { cursor_row: min_of(pos_of(param0(p)), self.last_row()), ..self }
        } else if c == 'P' {
            self.cursor_row_as(delete_chars(self.cells[self.cursor_row], self.cursor_col, n))
        } else if c == '@' {
            self.cursor_row_as(
                insert_chars(self.cells[self.cursor_row], self.cursor_col, n, self.cols),
            )
        } else if c == 'X' {
            self.cursor_row_blanked(self.cursor_col, min_of(self.cursor_col + n, self.cols))
        } else {
            self
        }
    }
}

/// Terminal screen buffer that the VTE parser writes into.
pub struct TerminalScreen {
    pub cells: Vec<Vec<Cell>>,
    pub cursor_row: usize,
    pub cursor_col: usize,
    pub rows: usize,
    pub cols: usize,
    // Current SGR attributes
    pub cur_fg: Option<Color>,
    pub cur_bg: Option<Color>,
    pub cur_bold: bool,
    // Scroll region
    pub scroll_top: usize,
    pub scroll_bottom: usize,
    // CWD reported by shell via OSC 7
    pub reported_cwd: Option<String>,
}

impl View for TerminalScreen {
    type V = ScreenView;

    open spec fn view(&self) -> ScreenView {
        ScreenView {
            cells: grid(self.cells@),
            cursor_row: self.cursor_row as int,
            cursor_col: self.cursor_col as int,
            rows: self.rows as int,
            cols: self.cols as int,
            fg: self.cur_fg,
            bg: self.cur_bg,
            bold: self.cur_bold,
            scroll_top: self.scroll_top as int,
            scroll_bottom: self.scroll_bottom as int,
            reported_cwd: match self.reported_cwd {
                Some(p) => Some(p@),
                None => None,
            },
        }
    }
}

proof fn lemma_grid_remove(v: Seq<Vec<Cell>>, k: int)
    requires
        0 <= k < v.len(),
    ensures
        grid(v.remove(k)) == grid(v).remove(k),
{
    assert(grid(v.remove(k)) =~= grid(v).remove(k));
}

proof fn lemma_grid_insert(v: Seq<Vec<Cell>>, k: int, x: Vec<Cell>)
    requires
        0 <= k <= v.len(),
    ensures
        grid(v.insert(k, x)) == grid(v).insert(k, x@),
{
    assert(grid(v.insert(k, x)) =~= grid(v).insert(k, x@));
}

/// `row` cut or padded with blanks to `n` cells.
pub open spec fn fit_row(row: Seq<Cell>, n: int) -> Seq<Cell> {
    if n <= row.len() {
        row.take(n)
    } else {
        row + blank_row(n - row.len())
    }
}

fn resize_row(row: &mut Vec<Cell>, n: usize)
    ensures
        final(row)@ == fit_row(old(row)@, n as int),
{
    if n <= row.len() {
        row.truncate(n);
    } else {
        let ghost start = row@;
        let extra = n - row.len();
        for i in 0..extra
            invariant
                extra == n - start.len(),
                row@ == start + blank_row(i as int),
        {
            row.push(Cell::default());
            assert(row@ =~= start + blank_row(i + 1));
        }
    }
}

fn normal(k: u16) -> (c: Color)
    requires
        k <= 7,
    ensures
        c == normal_color(k as int),
{
    if k == 0 {
        Color::Black
    } else if k == 1 {
        Color::Red
    } else if k == 2 {
        Color::Green
    } else if k == 3 {
        Color::Yellow
    } else if k == 4 {
        Color::Blue
    } else if k == 5 {
        Color::Magenta
    } else if k == 6 {
        Color::Cyan
    } else {
        Color::White
    }
}

fn bright(k: u16) -> (c: Color)
    requires
        k <= 7,
    ensures
        c == bright_color(k as int),
{
    if k == 0 {
        Color::DarkGray
    } else if k == 1 {
        Color::LightRed
    } else if k == 2 {
        Color::LightGreen
    } else if k == 3 {
        Color::LightYellow
    } else if k == 4 {
        Color::LightBlue
    } else if k == 5 {
        Color::LightMagenta
    } else if k == 6 {
        Color::LightCyan
    } else {
        Color::White
    }
}

/// A row of `n` blank cells.
fn blank_cells(n: usize) -> (v: Vec<Cell>)
    ensures
        v@ == blank_row(n as int),
{
    let mut v: Vec<Cell> = Vec::new();
    for i in 0..n
        invariant
            v@ == blank_row(i as int),
    {
        v.push(Cell::default());
    }
    v
}

/// A count parameter: the first one, at least 1, or 1 where there is none.
fn count_param(params: &Vec<u16>) -> (n: usize)
    ensures
        n == count_of(param0(params@)),
        1 <= n <= u16::MAX,
{
    let v: u16 = if params.len() > 0 { params[0] } else { 1 };
    if v < 1 { 1 } else { v as usize }
}

/// A position parameter `params[i]` (1-based, missing gives 1), made 0-based.
fn position_param(params: &Vec<u16>, i: usize) -> (n: usize)
    requires
        i <= 1,
    ensures
        n == pos_of(if i == 0 { param0(params@) } else { param1(params@) }),
        n < u16::MAX,
{
    let v: u16 = if i < params.len() { params[i] } else { 1 };
    let v = if v < 1 { 1 } else { v };
    v as usize - 1
}

fn min_usize(a: usize, b: usize) -> (m: usize)
    ensures
        m == min_of(a as int, b as int),
{
    if a <= b { a } else { b }
}

fn sat_dec_usize(a: usize) -> (m: usize)
    ensures
        m == sat_dec(a as int),
{
    if a > 0 { a - 1 } else { 0 }
}

impl TerminalScreen {
    pub fn new(rows: usize, cols: usize) -> (s: TerminalScreen)
        requires
            rows <= isize::MAX,
            cols <= isize::MAX,
        ensures
            s@.wf(),
            s@ == (ScreenView {
                cells: Seq::new(rows as nat, |r: int| blank_row(cols as int)),
                cursor_row: 0,
                cursor_col: 0,
                rows: rows as int,
                cols: cols as int,
                fg: None,
                bg: None,
                bold: false,
                scroll_top: 0,
                scroll_bottom: sat_dec(rows as int),
                reported_cwd: None,
            }),
    {
        let mut cells: Vec<Vec<Cell>> = Vec::new();
        for r in 0..rows
            invariant
                grid(cells@) == Seq::new(r as nat, |i: int| blank_row(cols as int)),
        {
            let ghost prev = cells@;
            let row = blank_cells(cols);
            cells.push(row);
            assert(grid(prev).len() == r);
            assert(prev.len() == r);
            assert forall|i: int| 0 <= i < r + 1 implies grid(cells@)[i] == blank_row(cols as int) by {
                if i < r {
                    assert(grid(prev)[i] == blank_row(cols as int));
                }
            }
            assert(grid(cells@) =~= Seq::new((r + 1) as nat, |i: int| blank_row(cols as int)));
        }
        let s = TerminalScreen {
            cells,
            cursor_row: 0,
            cursor_col: 0,
            rows,
            cols,
            cur_fg: None,
            cur_bg: None,
            cur_bold: false,
            scroll_top: 0,
            scroll_bottom: sat_dec_usize(rows),
            reported_cwd: None,
        };
        s
    }

    pub fn resize(&mut self, rows: usize, cols: usize)
        requires
            old(self)@.wf(),
            rows <= isize::MAX,
            cols <= isize::MAX,
        ensures
            final(self)@.wf(),
            final(self)@ == old(self)@.after_resize(rows as int, cols as int),
    {
        let ghost start = self@;
        if rows <= self.cells.len() {
            self.cells.truncate(rows);
        } else {
            while self.cells.len() < rows
                invariant
                    rows <= isize::MAX,
                    self@ == start.with_cells(self@.cells),
                    start.cells.len() <= self.cells.len() <= rows,
                    forall|r: int| 0 <= r < start.cells.len() ==> #[trigger] self.cells@[r]@ == start.cells[r],
                    forall|r: int| start.cells.len() <= r < self.cells.len() ==> #[trigger] self.cells@[r]@ == blank_row(cols as int),
                decreases rows - self.cells.len(),
            {
                let row = blank_cells(cols);
                self.cells.push(row);
            }
        }
        let n = self.cells.len();
        for i in 0..n
            invariant
                self@ == start.with_cells(self@.cells),
                n == self.cells.len(),
                n == rows,
                n <= start.cells.len() ==> forall|r: int| 0 <= r < n ==> #[trigger] self.cells@[r]@ == (if r < i { fit_row(start.cells[r], cols as int) } else { start.cells[r] }),
                n > start.cells.len() ==> forall|r: int| 0 <= r < n ==> #[trigger] self.cells@[r]@ == (if r < i { fit_row(if r < start.cells.len() { start.cells[r] } else { blank_row(cols as int) }, cols as int) } else if r < start.cells.len() { start.cells[r] } else { blank_row(cols as int) }),
        {
            resize_row(&mut self.cells[i], cols);
        }
        self.rows = rows;
        self.cols = cols;
        if self.cursor_row >= rows {
            self.cursor_row = sat_dec_usize(rows);
        }
        if self.cursor_col >= cols {
            self.cursor_col = sat_dec_usize(cols);
        }
        self.scroll_bottom = sat_dec_usize(rows);
        proof {
            assert(fit_row(blank_row(cols as int), cols as int) =~= blank_row(cols as int));
            assert(self@.cells =~= start.after_resize(rows as int, cols as int).cells);
            assert forall|r: int| 0 <= r < self@.cells.len() implies #[trigger] self@.cells[r].len() == cols by {
                if r < start.cells.len() {
                    assert(fit_row(start.cells[r], cols as int).len() == cols);
                }
            }
        }
    }

    fn scroll_up(&mut self)
        requires
            old(self)@.wf(),
        ensures
            final(self)@.wf(),
            final(self)@ == old(self)@.after_scroll_up(),
    {
        if self.scroll_top < self.scroll_bottom && self.scroll_bottom < self.rows {
            let ghost v = self.cells@;
            self.cells.remove(self.scroll_top);
            let row = blank_cells(self.cols);
            proof {
                lemma_grid_remove(v, self.scroll_top as int);
                lemma_grid_insert(self.cells@, self.scroll_bottom as int, row);
            }
            self.cells.insert(self.scroll_bottom, row);
        }
    }

    fn line_feed(&mut self)
        requires
            old(self)@.wf(),
        ensures
            final(self)@.wf(),
            final(self)@ == old(self)@.after_line_feed(),
    {
        self.cursor_row += 1;
        if self.cursor_row > self.scroll_bottom {
            self.cursor_row = self.scroll_bottom;
            self.scroll_up();
        }
    }

    fn put_char(&mut self, c: char)
        requires
            old(self)@.wf(),
        ensures
            final(self)@.wf(),
            final(self)@ == old(self)@.after_put_char(c),
    {
        if self.cursor_col >= self.cols {
            // Line wrap
            self.cursor_col = 0;
            self.line_feed();
        }
        if self.cursor_row < self.rows && self.cursor_col < self.cols {
            let ghost v = self.cells@;
            let cell = Cell { c, fg: self.cur_fg, bg: self.cur_bg, bold: self.cur_bold };
            self.cells[self.cursor_row][self.cursor_col] = cell;
            proof {
                assert(grid(self.cells@) =~= grid(v).update(
                    self.cursor_row as int,
                    grid(v)[self.cursor_row as int].update(self.cursor_col as int, cell),
                ));
            }
            self.cursor_col += 1;
        }
    }

    /// A printable char from the parser.
    pub fn print(&mut self, c: char)
        requires
            old(self)@.wf(),
        ensures
            final(self)@.wf(),
            final(self)@ == old(self)@.after_put_char(c),
    {
        self.put_char(c);
    }

    /// A C0 control byte from the parser.
    pub fn execute(&mut self, byte: u8)
        requires
            old(self)@.wf(),
        ensures
            final(self)@.wf(),
            final(self)@ == old(self)@.after_execute(byte),
    {
        if byte == 0x07 {
            // BEL
        } else if byte == 0x08 {
            // Backspace
            self.cursor_col = sat_dec_usize(self.cursor_col);
        } else if byte == 0x09 {
            // Tab
            let next_tab = (self.cursor_col / 8 + 1) * 8;
            self.cursor_col = min_usize(next_tab, sat_dec_usize(self.cols));
        } else if byte == 0x0A {
            // Newline / Line Feed
            self.line_feed();
        } else if byte == 0x0D {
            // Carriage Return
            self.cursor_col = 0;
        }
    }

    /// Cells `from..to` of row `row` made blank.
    fn blank_span(&mut self, row: usize, from: usize, to: usize)
        requires
            old(self)@.wf(),
            row < old(self)@.cells.len(),
            from <= to <= old(self)@.cols,
        ensures
            final(self)@.wf(),
            final(self)@ == old(self)@.with_cells(
                blanked(old(self)@.cells, |r: int, k: int| r == row && from <= k < to),
            ),
    {
        let ghost start = self@;
        assert(blanked(start.cells, |r: int, j: int| r == row && from <= j < from) =~~= start.cells);
        for k in from..to
            invariant
                start.wf(),
                row < start.cells.len(),
                to <= start.cols,
                self@ == start.with_cells(
                    blanked(start.cells, |r: int, j: int| r == row && from <= j < k),
                ),
        {
            assert(grid(self.cells@).len() == start.cells.len());
            assert(grid(self.cells@)[row as int].len() == start.cols);
            let ghost prev = self.cells@;
            self.cells[row][k] = Cell::default();
            proof {
                assert(grid(self.cells@) =~= grid(prev).update(
                    row as int,
                    grid(prev)[row as int].update(k as int, blank()),
                ));
                assert(grid(self.cells@) =~~= blanked(
                    start.cells,
                    |r: int, j: int| r == row && from <= j < k + 1,
                ));
            }
        }
    }

    /// Rows `from..to` made blank.
    fn blank_rows(&mut self, from: usize, to: usize)
        requires
            old(self)@.wf(),
            from <= to,
            to <= old(self)@.rows,
        ensures
            final(self)@.wf(),
            final(self)@ == old(self)@.rows_blanked(from as int, to as int),
    {
        let ghost start = self@;
        let cols = self.cols;
        assert(blanked(start.cells, |r: int, k: int| from <= r < from && k < start.cols) =~~= start.cells);
        for i in from..to
            invariant
                start.wf(),
                to <= start.rows,
                cols == start.cols,
                self@ == start.with_cells(
                    blanked(start.cells, |r: int, k: int| from <= r < i && k < start.cols),
                ),
        {
            self.blank_span(i, 0, cols);
            proof {
                assert(self@.cells =~~= blanked(
                    start.cells,
                    |r: int, k: int| from <= r < i + 1 && k < start.cols,
                ));
            }
        }
        proof {
            assert(self@.cells =~~= start.rows_blanked(from as int, to as int).cells);
        }
    }

    fn clear_line_from_cursor(&mut self)
        requires
            old(self)@.wf(),
        ensures
            final(self)@.wf(),
            final(self)@ == old(self)@.after_clear_line_from_cursor(),
    {
        let ghost start = self@;
        if self.cursor_row < self.rows {
            self.blank_span(self.cursor_row, self.cursor_col, self.cols);
            proof {
                assert(self@.cells =~~= start.after_clear_line_from_cursor().cells);
            }
        }
    }

    fn clear_line_to_cursor(&mut self)
        requires
            old(self)@.wf(),
            !(old(self).cols == 0 && old(self).cursor_row < old(self).rows),
        ensures
            final(self)@.wf(),
            final(self)@ == old(self)@.after_clear_line_to_cursor(),
    {
        let ghost start = self@;
        if self.cursor_row < self.rows {
            let last = min_usize(self.cursor_col, sat_dec_usize(self.cols));
            self.blank_span(self.cursor_row, 0, last + 1);
            proof {
                assert(self@.cells =~~= start.after_clear_line_to_cursor().cells);
            }
        }
    }

    fn clear_entire_line(&mut self)
        requires
            old(self)@.wf(),
        ensures
            final(self)@.wf(),
            final(self)@ == old(self)@.after_clear_entire_line(),
    {
        let ghost start = self@;
        if self.cursor_row < self.rows {
            self.blank_span(self.cursor_row, 0, self.cols);
            proof {
                assert(self@.cells =~~= start.after_clear_entire_line().cells);
            }
        }
    }

    fn clear_screen_from_cursor(&mut self)
        requires
            old(self)@.wf(),
        ensures
            final(self)@.wf(),
            final(self)@ == old(self)@.after_clear_screen_from_cursor(),
    {
        self.clear_line_from_cursor();
        if self.cursor_row + 1 <= self.rows {
            self.blank_rows(self.cursor_row + 1, self.rows);
        } else {
            proof {
                assert(self@.cells =~~= self@.rows_blanked(self@.cursor_row + 1, self@.rows).cells);
            }
        }
    }

    fn clear_screen_to_cursor(&mut self)
        requires
            old(self)@.wf(),
            !(old(self).cols == 0 && old(self).cursor_row < old(self).rows),
        ensures
            final(self)@.wf(),
            final(self)@ == old(self)@.after_clear_screen_to_cursor(),
    {
        self.clear_line_to_cursor();
        self.blank_rows(0, self.cursor_row);
    }

    /// SGR: the graphic rendition that the parameters select.
    fn select_rendition(&mut self, params: &Vec<u16>)
        requires
            old(self)@.wf(),
        ensures
            final(self)@.wf(),
            final(self)@ == (ScreenView {
                fg: sgr(params@, (old(self)@.fg, old(self)@.bg, old(self)@.bold)).0,
                bg: sgr(params@, (old(self)@.fg, old(self)@.bg, old(self)@.bold)).1,
                bold: sgr(params@, (old(self)@.fg, old(self)@.bg, old(self)@.bold)).2,
                ..old(self)@
            }),
    {
        if params.len() == 0 {
            // Reset
            self.cur_fg = None;
            self.cur_bg = None;
            self.cur_bold = false;
            return;
        }
        let ghost start = self@;
        let ghost p = params@;
        let mut i: usize = 0;
        while i < params.len()
            invariant
                p == params@,
                i <= p.len(),
                start.wf(),
                self@ == (ScreenView { fg: self@.fg, bg: self@.bg, bold: self@.bold, ..start }),
                sgr_from(p, i as int, (self@.fg, self@.bg, self@.bold)) == sgr_from(
                    p,
                    0,
                    (start.fg, start.bg, start.bold),
                ),
            decreases p.len() - i,
        {
            let code = params[i];
            if code == 0 {
                self.cur_fg = None;
                self.cur_bg = None;
                self.cur_bold = false;
            } else if code == 1 {
                self.cur_bold = true;
            } else if code == 22 {
                self.cur_bold = false;
            } else if 30 <= code && code <= 37 {
                // Standard foreground colors
                self.cur_fg = Some(normal(code - 30));
            } else if code == 39 {
                // Default fg
                self.cur_fg = None;
            } else if 40 <= code && code <= 47 {
                // Standard background colors
                self.cur_bg = Some(normal(code - 40));
            } else if code == 49 {
                // Default bg
                self.cur_bg = None;
            } else if 90 <= code && code <= 97 {
                // Bright foreground
                self.cur_fg = Some(bright(code - 90));
            } else if 100 <= code && code <= 107 {
                // Bright background
                self.cur_bg = Some(bright(code - 100));
            } else if code == 38 || code == 48 {
                // 256-color: ESC[38;5;{n}m (fg) / ESC[48;5;{n}m (bg)
                // 24-bit: ESC[38;2;r;g;b m / ESC[48;2;r;g;b m
                let mut picked: Option<Color> = None;
                if params.len() - i > 1 && params[i + 1] == 5 {
                    if params.len() - i > 2 {
                        picked = Some(Color::Indexed(params[i + 2] as u8));
                        i += 2;
                    }
                } else if params.len() - i > 1 && params[i + 1] == 2 {
                    if params.len() - i > 4 {
                        picked = Some(
                            Color::Rgb(params[i + 2] as u8, params[i + 3] as u8, params[i + 4] as u8),
                        );
                        i += 4;
                    }
                }
                if picked.is_some() {
                    if code == 38 {
                        self.cur_fg = picked;
                    } else {
                        self.cur_bg = picked;
                    }
                }
            }
            // Ignore unsupported SGR codes
            i += 1;
        }
    }

    /// IL: `n` blank lines come in at the cursor within the scroll region.
    fn insert_lines(&mut self, n: usize)
        requires
            old(self)@.wf(),
        ensures
            final(self)@.wf(),
            final(self)@ == old(self)@.with_cells(old(self)@.insert_lines(n as int)),
    {
        let ghost start = self@;
        for k in 0..n
            invariant
                self@.wf(),
                self@ == start.with_cells(start.insert_lines(k as int)),
        {
            if self.cursor_row <= self.scroll_bottom {
                let ghost v0 = self.cells@;
                let ghost s0 = self@;
                assert(s0.cells == grid(v0));
                if self.scroll_bottom < self.rows {
                    self.cells.remove(self.scroll_bottom);
                    proof {
                        lemma_grid_remove(v0, self.scroll_bottom as int);
                    }
                }
                let ghost mid = self.cells@;
                proof {
                    assert forall|j: int| 0 <= j < mid.len() implies #[trigger] mid[j]@.len() == start.cols by {
                        assert(s0.cells[j].len() == start.cols);
                        if self.scroll_bottom < self.rows {
                            if j >= self.scroll_bottom {
                                assert(s0.cells[j + 1].len() == start.cols);
                            }
                        }
                    }
                }
                let row = blank_cells(self.cols);
                proof {
                    lemma_grid_insert(self.cells@, self.cursor_row as int, row);
                }
                self.cells.insert(self.cursor_row, row);
                proof {
                    assert forall|j: int| 0 <= j < self@.cells.len() implies #[trigger] self@.cells[j].len() == start.cols by {
                        if j < self.cursor_row {
                            assert(self.cells@[j] == mid[j]);
                        } else if j > self.cursor_row {
                            assert(self.cells@[j] == mid[j - 1]);
                        }
                    }
                }
            }
        }
    }

    /// DL: `n` lines at the cursor go and blank lines come in at the bottom
    /// of the scroll region.
    fn delete_lines(&mut self, n: usize)
        requires
            old(self)@.wf(),
            old(self)@.rows == 0 ==> old(self)@.cells.len() >= n,
        ensures
            final(self)@.wf(),
            final(self)@ == old(self)@.with_cells(old(self)@.delete_lines(n as int)),
    {
        let ghost start = self@;
        for k in 0..n
            invariant
                self@.wf(),
                start.rows == 0 ==> self@.cells.len() + k == start.cells.len(),
                start.rows == 0 ==> start.cells.len() >= n,
                self@ == start.with_cells(start.delete_lines(k as int)),
        {
            if self.cursor_row <= self.scroll_bottom {
                let ghost v = self.cells@;
                self.cells.remove(self.cursor_row);
                proof {
                    lemma_grid_remove(v, self.cursor_row as int);
                }
                if self.scroll_bottom < self.rows {
                    let row = blank_cells(self.cols);
                    proof {
                        lemma_grid_insert(self.cells@, self.scroll_bottom as int, row);
                    }
                    self.cells.insert(self.scroll_bottom, row);
                }
            }
        }
    }

    /// DCH: `n` chars at the cursor go, blanks come in at the end of the line.
    fn delete_chars(&mut self, n: usize)
        requires
            old(self)@.wf(),
            old(self).cursor_row < old(self).rows,
        ensures
            final(self)@.wf(),
            final(self)@ == old(self)@.cursor_row_as(
                delete_chars(old(self)@.cells[old(self)@.cursor_row], old(self)@.cursor_col, n as int),
            ),
    {
        let ghost start = self@;
        let r = self.cursor_row;
        assert(start.cells.update(r as int, start.cells[r as int]) =~= start.cells);
        for k in 0..n
            invariant
                start.wf(),
                r == start.cursor_row,
                r < start.rows,
                self@ == start.with_cells(
                    start.cells.update(r as int, delete_chars(start.cells[r as int], start.cursor_col, k as int)),
                ),
                delete_chars(start.cells[r as int], start.cursor_col, k as int).len() == start.cols,
        {
            assert(grid(self.cells@).len() == start.cells.len());
            assert(grid(self.cells@)[r as int].len() == start.cols);
            if self.cursor_col < self.cells[r].len() {
                let ghost prev = self.cells@;
                self.cells[r].remove(self.cursor_col);
                self.cells[r].push(Cell::default());
                proof {
                    assert(grid(self.cells@) =~= grid(prev).update(
                        r as int,
                        grid(prev)[r as int].remove(start.cursor_col).push(blank()),
                    ));
                }
            }
            proof {
                assert(self@.cells =~= start.cells.update(
                    r as int,
                    delete_chars(start.cells[r as int], start.cursor_col, k + 1),
                ));
            }
        }
    }

    /// ICH: `n` blanks come in at the cursor, pushing the rest of the line
    /// right and off its end.
    fn insert_chars(&mut self, n: usize)
        requires
            old(self)@.wf(),
            old(self).cursor_row < old(self).rows,
        ensures
            final(self)@.wf(),
            final(self)@ == old(self)@.cursor_row_as(
                insert_chars(
                    old(self)@.cells[old(self)@.cursor_row],
                    old(self)@.cursor_col,
                    n as int,
                    old(self)@.cols,
                ),
            ),
    {
        let ghost start = self@;
        let r = self.cursor_row;
        assert(start.cells.update(r as int, start.cells[r as int]) =~= start.cells);
        for k in 0..n
            invariant
                start.wf(),
                r == start.cursor_row,
                r < start.rows,
                self@ == start.with_cells(
                    start.cells.update(
                        r as int,
                        insert_chars(start.cells[r as int], start.cursor_col, k as int, start.cols),
                    ),
                ),
                insert_chars(start.cells[r as int], start.cursor_col, k as int, start.cols).len()
                    == start.cols,
        {
            assert(grid(self.cells@).len() == start.cells.len());
            assert(grid(self.cells@)[r as int].len() == start.cols);
            if self.cursor_col < self.cells[r].len() {
                let ghost prev = self.cells@;
                self.cells[r].insert(self.cursor_col, Cell::default());
                self.cells[r].truncate(self.cols);
                proof {
                    assert(grid(self.cells@) =~= grid(prev).update(
                        r as int,
                        grid(prev)[r as int].insert(start.cursor_col, blank()).take(start.cols),
                    ));
                }
            }
            proof {
                assert(self@.cells =~= start.cells.update(
                    r as int,
                    insert_chars(start.cells[r as int], start.cursor_col, k + 1, start.cols),
                ));
            }
        }
    }

    /// A CSI sequence from the parser: `params` are its numeric parameters
    /// (sub-parameters flattened in order) and `c` its final char.
    pub fn csi_dispatch(&mut self, params: &Vec<u16>, c: char)
        requires
            old(self)@.wf(),
            old(self)@.csi_ok(params@, c),
        ensures
            final(self)@.wf(),
            final(self)@ == old(self)@.after_csi(params@, c),
    {
        if c == 'A' {
            // CUU - Cursor Up
            let n = count_param(params);
            self.cursor_row = self.cursor_row.saturating_sub(n);
        } else if c == 'B' {
            // CUD - Cursor Down
            let n = count_param(params);
            self.cursor_row = min_usize(self.cursor_row + n, sat_dec_usize(self.rows));
        } else if c == 'C' {
            // CUF - Cursor Forward
            let n = count_param(params);
            self.cursor_col = min_usize(self.cursor_col + n, sat_dec_usize(self.cols));
        } else if c == 'D' {
            // CUB - Cursor Backward
            let n = count_param(params);
            self.cursor_col = self.cursor_col.saturating_sub(n);
        } else if c == 'H' || c == 'f' {
            // CUP / HVP - Cursor Position
            let row = position_param(params, 0);
            let col = position_param(params, 1);
            self.cursor_row = min_usize(row, sat_dec_usize(self.rows));
            self.cursor_col = min_usize(col, sat_dec_usize(self.cols));
        } else if c == 'J' {
            // ED - Erase in Display
            let mode: u16 = if params.len() > 0 { params[0] } else { 0 };
            if mode == 0 {
                self.clear_screen_from_cursor();
            } else if mode == 1 {
                self.clear_screen_to_cursor();
            } else if mode == 2 || mode == 3 {
                self.clear_entire_screen();
            }
        } else if c == 'K' {
            // EL - Erase in Line
            let mode: u16 = if params.len() > 0 { params[0] } else { 0 };
            if mode == 0 {
                self.clear_line_from_cursor();
            } else if mode == 1 {
                self.clear_line_to_cursor();
            } else if mode == 2 {
                self.clear_entire_line();
            }
        } else if c == 'm' {
            // SGR - Select Graphic Rendition
            self.select_rendition(params);
        } else if c == 'r' {
            // Scroll region
            let top = position_param(params, 0);
            let given: u16 = if params.len() > 1 { params[1] } else { self.rows as u16 };
            let bottom: usize = if given < 1 { 0 } else { given as usize - 1 };
            self.scroll_top = min_usize(top, sat_dec_usize(self.rows));
            self.scroll_bottom = min_usize(bottom, sat_dec_usize(self.rows));
        } else if c == 'L' {
            // IL - Insert Lines
            let n = count_param(params);
            self.insert_lines(n);
        } else if c == 'M' {
            // DL - Delete Lines
            let n = count_param(params);
            self.delete_lines(n);
        } else if c == 'G' {
            // CHA - Cursor Horizontal Absolute
            let col = position_param(params, 0);
            self.cursor_col = min_usize(col, sat_dec_usize(self.cols));
        } else if c == 'd' {
            // VPA - Vertical Position Absolute
            let row = position_param(params, 0);
            self.cursor_row = min_usize(row, sat_dec_usize(self.rows));
        } else if c == 'P' {
            // DCH - Delete Characters
            let n = count_param(params);
            if self.cursor_row < self.rows {
                self.delete_chars(n);
            }
        } else if c == '@' {
            // ICH - Insert Characters
            let n = count_param(params);
            if self.cursor_row < self.rows {
                self.insert_chars(n);
            }
        } else if c == 'X' {
            // ECH - Erase Characters
            let n = count_param(params);
            if self.cursor_row < self.rows {
                let end = min_usize(self.cursor_col + n, self.cols);
                self.blank_span(self.cursor_row, self.cursor_col, end);
            }
        }
        // Ignore other CSI sequences
    }

    /// Whether the CSI sequence with `params` and final char `c` stays within
    /// the grid, as `csi_dispatch` asks: deleting lines from a screen of no
    /// rows needs that many rows held, and erasing up to the cursor needs a
    /// column where the cursor's row is on the screen.
    pub fn csi_admissible(&self, params: &Vec<u16>, c: char) -> (b: bool)
        ensures
            b == self@.csi_ok(params@, c),
    {
        let first_is_one = params.len() > 0 && params[0] == 1;
        if c == 'M' && self.rows == 0 && self.cells.len() < count_param(params) {
            return false;
        }
        if (c == 'J' || c == 'K') && first_is_one && self.cols == 0 && self.cursor_row < self.rows {
            return false;
        }
        true
    }

    /// An OSC sequence from the parser: an OSC 7 working-directory report is
    /// recorded in `reported_cwd`; others are ignored.
    pub fn osc_dispatch(&mut self, params: &Vec<Vec<u8>>)
        requires
            old(self)@.wf(),
        ensures
            final(self)@.wf(),
            final(self)@ == match osc_cwd(params@.map_values(|p: Vec<u8>| p@)) {
                None => old(self)@,
                Some(cwd) => ScreenView { reported_cwd: Some(cwd), ..old(self)@ },
            },
    {
        // OSC 7: report working directory, as `7` then the URL, or `7;URL`
        if let Some(cwd) = cwd_from_osc(params) {
            self.reported_cwd = Some(cwd);
        }
    }

    /// The working directory last reported, taken out.
    pub fn take_reported_cwd(&mut self) -> (cwd: Option<String>)
        requires
            old(self)@.wf(),
        ensures
            final(self)@.wf(),
            final(self)@ == (ScreenView { reported_cwd: None, ..old(self)@ }),
            match cwd {
                None => old(self)@.reported_cwd is None,
                Some(c) => old(self)@.reported_cwd == Some(c@),
            },
    {
        self.reported_cwd.take()
    }

    fn clear_entire_screen(&mut self)
        requires
            old(self)@.wf(),
        ensures
            final(self)@.wf(),
            final(self)@ == old(self)@.after_clear_entire_screen(),
    {
        self.blank_rows(0, self.rows);
    }
}

} // verus!
