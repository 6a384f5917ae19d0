//! The text buffer of the editor pane: a rope, a cursor, an optional
//! selection anchor and the scroll position.
use vstd::prelude::*;
use ropey::Rope;
use crate::editor::lines::{
    breaks_upto, ends_line_at, is_break_char, line_count, line_len, line_of_char, line_start,
    lemma_breaks_bounds, lemma_breaks_before_next_line, lemma_breaks_common_prefix,
    lemma_line_count_bounds, lemma_line_len_bounds, lemma_line_of_char_start,
    lemma_line_start_at, lemma_line_start_bounds, lemma_line_start_not_before,
    lemma_line_start_props,
};
use crate::editor::rope::{
    rope_chars, rope_new, rope_from_str, rope_len_chars, rope_len_lines, rope_line_to_char,
    rope_char_to_line, rope_char, rope_char_to_byte, rope_insert, rope_insert_char, rope_remove,
    rope_slice_string, rope_string,
};
use vstd::utf8::encode_utf8;

verus! {

pub open spec fn min_int(a: int, b: int) -> int {
    if a <= b {
        a
    } else {
        b
    }
}

/// `(row, col)` positions in reading order.
pub open spec fn pos_le(a: (int, int), b: (int, int)) -> bool {
    a.0 < b.0 || (a.0 == b.0 && a.1 <= b.1)
}

pub open spec fn pos_lt(a: (int, int), b: (int, int)) -> bool {
    a.0 < b.0 || (a.0 == b.0 && a.1 < b.1)
}

/// What a buffer holds, as mathematical values.
pub struct BufferView {
    pub text: Seq<char>,
    pub cursor_row: int,
    pub cursor_col: int,
    pub scroll_offset: int,
    pub file_path: Option<Seq<char>>,
    pub modified: bool,
    pub anchor: Option<(int, int)>,
}

impl BufferView {
    /// An empty, untitled buffer.
    pub open spec fn empty() -> BufferView {
        BufferView {
            text: Seq::empty(),
            cursor_row: 0,
            cursor_col: 0,
            scroll_offset: 0,
            file_path: None,
            modified: false,
            anchor: None,
        }
    }

    /// A buffer holding `text`, read from `path`, with the cursor at the start.
    pub open spec fn opened(path: Seq<char>, text: Seq<char>) -> BufferView {
        BufferView {
            text: text,
            cursor_row: 0,
            cursor_col: 0,
            scroll_offset: 0,
            file_path: Some(path),
            modified: false,
            anchor: None,
        }
    }

    /// The row that an insertion goes to: the cursor's, kept within the text.
    pub open spec fn edit_row(self) -> int {
        min_int(self.cursor_row, line_count(self.text) - 1)
    }

    /// The column that an insertion goes to: the cursor's, kept within its line.
    pub open spec fn edit_col(self) -> int {
        min_int(self.cursor_col, line_len(self.text, self.edit_row()))
    }

    /// The char position that an insertion goes to.
    pub open spec fn edit_point(self) -> int {
        line_start(self.text, self.edit_row()) + self.edit_col()
    }

    /// `col` kept within line `row`.
    pub open spec fn clamped_col(self, row: int, col: int) -> int {
        if col > line_len(self.text, row) {
            line_len(self.text, row)
        } else {
            col
        }
    }

    pub open spec fn after_insert_char(self, c: char) -> BufferView {
        BufferView {
            text: self.text.insert(self.edit_point(), c),
            cursor_col: self.edit_col() + 1,
            modified: true,
            ..self
        }
    }

    pub open spec fn after_insert_newline(self) -> BufferView {
        BufferView {
            text: self.text.insert(self.edit_point(), '\n'),
            cursor_row: self.cursor_row + 1,
            cursor_col: 0,
            modified: true,
            ..self
        }
    }

    /// `s` is inserted at the edit point and the cursor moves past it.
    pub open spec fn after_insert_str(self, s: Seq<char>) -> BufferView {
        let p = self.edit_point();
        let t = self.text.take(p) + s + self.text.skip(p);
        let np = p + s.len();
        let row = line_of_char(t, np) as int;
        BufferView {
            text: t,
            cursor_row: row,
            cursor_col: np - line_start(t, row),
            modified: true,
            ..self
        }
    }

    /// Inputs on which `backspace` stays within the text.
    pub open spec fn backspace_ok(self) -> bool {
        &&& self.cursor_col > 0 ==> self.cursor_row <= line_count(self.text) && line_start(
            self.text,
            self.cursor_row,
        ) + self.cursor_col <= self.text.len()
        &&& (self.cursor_col == 0 && self.cursor_row > 0) ==> self.cursor_row <= line_count(
            self.text,
        ) && line_start(self.text, self.cursor_row) >= 1
    }

    /// The char before the cursor goes; at the start of a line, the line
    /// break before it goes and the cursor moves to the end of the line above.
    pub open spec fn after_backspace(self) -> BufferView {
        if self.cursor_col > 0 {
            BufferView {
                text: self.text.remove(line_start(self.text, self.cursor_row) + self.cursor_col - 1),
                cursor_col: self.cursor_col - 1,
                modified: true,
                ..self
            }
        } else if self.cursor_row > 0 {
            BufferView {
                text: self.text.remove(line_start(self.text, self.cursor_row) - 1),
                cursor_row: self.cursor_row - 1,
                cursor_col: line_len(self.text, self.cursor_row - 1),
                modified: true,
                ..self
            }
        } else {
            self
        }
    }

    /// The char at the cursor (kept within its line) goes, if there is one.
    pub open spec fn after_delete(self) -> BufferView {
        let i = line_start(self.text, self.cursor_row) + min_int(
            self.cursor_col,
            line_len(self.text, self.cursor_row),
        );
        if i < self.text.len() {
            BufferView { text: self.text.remove(i), modified: true, ..self }
        } else {
            self
        }
    }

    pub open spec fn after_move_up(self) -> BufferView {
        if self.cursor_row > 0 {
            BufferView {
                cursor_row: self.cursor_row - 1,
                cursor_col: self.clamped_col(self.cursor_row - 1, self.cursor_col),
                ..self
            }
        } else {
            self
        }
    }

    pub open spec fn after_move_down(self) -> BufferView {
        if self.cursor_row < line_count(self.text) - 1 {
            BufferView {
                cursor_row: self.cursor_row + 1,
                cursor_col: self.clamped_col(self.cursor_row + 1, self.cursor_col),
                ..self
            }
        } else {
            self
        }
    }

    pub open spec fn after_move_left(self) -> BufferView {
        if self.cursor_col > 0 {
            BufferView { cursor_col: self.cursor_col - 1, ..self }
        } else if self.cursor_row > 0 {
            BufferView {
                cursor_row: self.cursor_row - 1,
                cursor_col: line_len(self.text, self.cursor_row - 1),
                ..self
            }
        } else {
            self
        }
    }

    pub open spec fn after_move_right(self) -> BufferView {
        if self.cursor_col < line_len(self.text, self.cursor_row) {
            BufferView { cursor_col: self.cursor_col + 1, ..self }
        } else if self.cursor_row < line_count(self.text) - 1 {
            BufferView { cursor_row: self.cursor_row + 1, cursor_col: 0, ..self }
        } else {
            self
        }
    }

    pub open spec fn after_move_home(self) -> BufferView {
        BufferView { cursor_col: 0, ..self }
    }

    pub open spec fn after_move_end(self) -> BufferView {
        BufferView { cursor_col: line_len(self.text, self.cursor_row), ..self }
    }

    pub open spec fn after_toggle_mark(self) -> BufferView {
        BufferView {
            anchor: if self.anchor is Some {
                None
            } else {
                Some((self.cursor_row, self.cursor_col))
            },
            ..self
        }
    }

    pub open spec fn after_clear_selection(self) -> BufferView {
        BufferView { anchor: None, ..self }
    }

    /// The selection's two ends, in reading order.
    pub open spec fn selection(self) -> Option<((int, int), (int, int))> {
        match self.anchor {
            None => None,
            Some(a) => {
                let c = (self.cursor_row, self.cursor_col);
                if pos_le(a, c) {
                    Some((a, c))
                } else {
                    Some((c, a))
                }
            },
        }
    }

    pub open spec fn selects(self, row: int, col: int) -> bool {
        match self.selection() {
            None => false,
            Some((start, end)) => pos_le(start, (row, col)) && pos_lt((row, col), end),
        }
    }

    /// Inputs on which the selection's ends can be turned into char positions.
    pub open spec fn selection_ok(self) -> bool {
        match self.selection() {
            None => true,
            Some((start, end)) => {
                &&& start.0 <= line_count(self.text)
                &&& end.0 <= line_count(self.text)
                &&& line_start(self.text, start.0) + start.1 <= usize::MAX
                &&& line_start(self.text, end.0) + end.1 <= usize::MAX
            },
        }
    }

    /// The char range that the selection covers, where it is a non-empty
    /// range within the text.
    pub open spec fn selected_span(self) -> Option<(int, int)> {
        match self.selection() {
            None => None,
            Some((start, end)) => {
                let a = line_start(self.text, start.0) + start.1;
                let b = line_start(self.text, end.0) + end.1;
                if a >= b || b > self.text.len() {
                    None
                } else {
                    Some((a, b))
                }
            },
        }
    }

    pub open spec fn selected_text(self) -> Option<Seq<char>> {
        match self.selected_span() {
            None => None,
            Some((a, b)) => Some(self.text.subrange(a, b)),
        }
    }

    /// The selected text goes, the cursor moves to where it began and the
    /// mark is cleared; with nothing to take, the buffer stays as it was.
    pub open spec fn after_delete_selection(self) -> BufferView {
        match (self.selected_span(), self.selection()) {
            (Some((a, b)), Some((start, _))) => {
                BufferView {
                    text: self.text.take(a) + self.text.skip(b),
                    cursor_row: start.0,
                    cursor_col: start.1,
                    modified: true,
                    anchor: None,
                    ..self
                }
            },
            _ => self,
        }
    }

    pub open spec fn after_scroll_to_cursor(self, pane_height: int) -> BufferView {
        if pane_height == 0 {
            self
        } else if self.cursor_row < self.scroll_offset {
            BufferView { scroll_offset: self.cursor_row, ..self }
        } else if self.cursor_row >= self.scroll_offset + pane_height {
            BufferView { scroll_offset: self.cursor_row - pane_height + 1, ..self }
        } else {
            self
        }
    }
}

/// Backspace undoes typing a char: for a cursor on a line of the text, the
/// text comes back as it was, and so does the cursor when it was within its
/// line. The one exception is typing LF at the start of a line that a lone
/// CR began, which makes the two one CRLF line break.
pub proof fn law_backspace_undoes_insert_char(v: BufferView, c: char)
    requires
        0 <= v.cursor_row < line_count(v.text),
        v.cursor_col >= 0,
        !(c == '\n' && v.edit_col() == 0 && v.cursor_row > 0 && v.text[line_start(v.text, v.cursor_row) - 1]
            == '\r'),
    ensures
        v.after_insert_char(c).after_backspace().text == v.text,
        v.after_insert_char(c).after_backspace().cursor_row == v.cursor_row,
        v.cursor_col <= line_len(v.text, v.cursor_row) ==> v.after_insert_char(c).after_backspace().cursor_col
            == v.cursor_col,
{
    let t = v.text;
    let row = v.cursor_row;
    let col = v.edit_col();
    let l = line_start(t, row);
    let p = v.edit_point();
    let t2 = t.insert(p, c);
    lemma_line_len_bounds(t, row);
    lemma_line_start_bounds(t, row, row);
    assert(t2.take(p) =~= t.take(p));
    if row > 0 {
        lemma_line_start_props(t, row);
        assert forall|q: int| 0 <= q < l implies breaks_upto(t2, q) < row by {
            lemma_breaks_common_prefix(t, t2, p, q);
        }
        if l < p {
            lemma_breaks_common_prefix(t, t2, p, l);
        } else {
            lemma_breaks_common_prefix(t, t2, p, l - 1);
            assert(breaks_upto(t, l - 1) < row);
            assert(ends_line_at(t, l));
            assert(t2[l - 1] == t[l - 1]);
            assert(t2[l] == c);
            assert(ends_line_at(t2, l));
        }
        lemma_line_start_at(t2, row, l);
    }
    assert(line_start(t2, row) == l);
    assert(t2.remove(p) =~= t);
}

/// Forward delete removes the char at the cursor (its column kept within
/// its line), if the text has one there, and marks the buffer modified; it
/// never moves the cursor, scrolls, or touches the mark or the file.
pub proof fn law_delete_removes_char_at_cursor(v: BufferView)
    requires
        v.cursor_row >= 0,
        v.cursor_col >= 0,
    ensures
        v.after_delete().cursor_row == v.cursor_row,
        v.after_delete().cursor_col == v.cursor_col,
        v.after_delete().scroll_offset == v.scroll_offset,
        v.after_delete().anchor == v.anchor,
        v.after_delete().file_path == v.file_path,
        ({
            let len = line_len(v.text, v.cursor_row);
            let i = line_start(v.text, v.cursor_row) + if v.cursor_col < len {
                v.cursor_col
            } else {
                len
            };
            if 0 <= i < v.text.len() {
                v.after_delete().text == v.text.take(i) + v.text.skip(i + 1) && v.after_delete().modified
            } else {
                v.after_delete() == v
            }
        }),
{
    let len = line_len(v.text, v.cursor_row);
    let i = line_start(v.text, v.cursor_row) + if v.cursor_col < len {
        v.cursor_col
    } else {
        len
    };
    lemma_line_start_bounds(v.text, v.cursor_row, v.cursor_row);
    lemma_line_len_bounds(v.text, v.cursor_row);
    if 0 <= i < v.text.len() {
        assert(v.text.remove(i) =~= v.text.take(i) + v.text.skip(i + 1));
    }
}

/// Typing a char puts it at the edit point (the cursor kept within the
/// text) and moves the cursor one past it on its line; the rest of the
/// text, the mark and the file stay.
pub proof fn law_insert_char_at_cursor(v: BufferView, c: char)
    requires
        0 <= v.cursor_row < line_count(v.text),
        v.cursor_col >= 0,
    ensures
        v.after_insert_char(c).text == v.text.take(v.edit_point()) + seq![c] + v.text.skip(v.edit_point()),
        v.after_insert_char(c).text.len() == v.text.len() + 1,
        v.after_insert_char(c).cursor_row == v.cursor_row,
        v.after_insert_char(c).cursor_col == (if v.cursor_col < line_len(v.text, v.cursor_row) {
            v.cursor_col
        } else {
            line_len(v.text, v.cursor_row)
        }) + 1,
        v.after_insert_char(c).anchor == v.anchor,
        v.after_insert_char(c).file_path == v.file_path,
        v.after_insert_char(c).modified,
{
    lemma_line_start_bounds(v.text, v.cursor_row, v.cursor_row);
    lemma_line_len_bounds(v.text, v.cursor_row);
    assert(v.text.insert(v.edit_point(), c) =~= v.text.take(v.edit_point()) + seq![c] + v.text.skip(
        v.edit_point(),
    ));
}

/// Backspace removes the char before the cursor and moves the cursor back
/// over it; at the start of a line it removes the line break before it and
/// the cursor goes to the end of the line above; at the start of the text
/// it does nothing. The mark and the file stay.
pub proof fn law_backspace_removes_char_before_cursor(v: BufferView)
    requires
        v.backspace_ok(),
        v.cursor_row >= 0,
        v.cursor_col >= 0,
    ensures
        v.after_backspace().anchor == v.anchor,
        v.after_backspace().file_path == v.file_path,
        v.cursor_col > 0 ==> ({
            let k = line_start(v.text, v.cursor_row) + v.cursor_col - 1;
            &&& v.after_backspace().text == v.text.take(k) + v.text.skip(k + 1)
            &&& v.after_backspace().cursor_row == v.cursor_row
            &&& v.after_backspace().cursor_col == v.cursor_col - 1
        }),
        v.cursor_col == 0 && v.cursor_row > 0 ==> ({
            let k = line_start(v.text, v.cursor_row) - 1;
            &&& v.after_backspace().text == v.text.take(k) + v.text.skip(k + 1)
            &&& v.after_backspace().cursor_row == v.cursor_row - 1
            &&& v.after_backspace().cursor_col == line_len(v.text, v.cursor_row - 1)
        }),
        v.cursor_col == 0 && v.cursor_row == 0 ==> v.after_backspace() == v,
{
    lemma_line_start_bounds(v.text, v.cursor_row, v.cursor_row);
    if v.cursor_col > 0 {
        let k = line_start(v.text, v.cursor_row) + v.cursor_col - 1;
        assert(v.text.remove(k) =~= v.text.take(k) + v.text.skip(k + 1));
    } else if v.cursor_row > 0 {
        let k = line_start(v.text, v.cursor_row) - 1;
        assert(v.text.remove(k) =~= v.text.take(k) + v.text.skip(k + 1));
    }
}

/// Each cursor key moves the cursor one step its way on a text it stays
/// on: Up and Down to the neighbouring line, the column kept within it;
/// Left and Right by one char, across line ends; Home and End to the ends
/// of the line. At the edges of the text the cursor stays.
pub proof fn law_cursor_key_directions(v: BufferView)
    requires
        v.cursor_on_text(),
    ensures
        v.cursor_row > 0 ==> v.after_move_up().cursor_row == v.cursor_row - 1
            && v.after_move_up().cursor_col == (if v.cursor_col <= line_len(v.text, v.cursor_row - 1) {
            v.cursor_col
        } else {
            line_len(v.text, v.cursor_row - 1)
        }),
        v.cursor_row == 0 ==> v.after_move_up() == v,
        v.cursor_row + 1 < line_count(v.text) ==> v.after_move_down().cursor_row == v.cursor_row + 1
            && v.after_move_down().cursor_col == (if v.cursor_col <= line_len(v.text, v.cursor_row + 1) {
            v.cursor_col
        } else {
            line_len(v.text, v.cursor_row + 1)
        }),
        v.cursor_row + 1 == line_count(v.text) ==> v.after_move_down() == v,
        v.cursor_col > 0 ==> v.after_move_left().cursor_row == v.cursor_row && v.after_move_left().cursor_col
            == v.cursor_col - 1,
        v.cursor_col == 0 && v.cursor_row > 0 ==> v.after_move_left().cursor_row == v.cursor_row - 1
            && v.after_move_left().cursor_col == line_len(v.text, v.cursor_row - 1),
        v.cursor_col < line_len(v.text, v.cursor_row) ==> v.after_move_right().cursor_row == v.cursor_row
            && v.after_move_right().cursor_col == v.cursor_col + 1,
        v.cursor_col == line_len(v.text, v.cursor_row) && v.cursor_row + 1 < line_count(v.text)
            ==> v.after_move_right().cursor_row == v.cursor_row + 1 && v.after_move_right().cursor_col == 0,
        v.after_move_home().cursor_row == v.cursor_row && v.after_move_home().cursor_col == 0,
        v.after_move_end().cursor_row == v.cursor_row && v.after_move_end().cursor_col == line_len(
            v.text,
            v.cursor_row,
        ),
{
}

/// Backspace undoes Enter: for a cursor on a line of the text, the text
/// comes back as it was and the cursor returns to its row, and to its
/// column when that was within the line. The exceptions are where the new
/// LF joins a break before it: at the start of a line that a lone CR began
/// (the two become one CRLF), and right after a line's closing break other
/// than CR or LF (the new empty line sits between the two).
pub proof fn law_backspace_undoes_insert_newline(v: BufferView)
    requires
        0 <= v.cursor_row < line_count(v.text),
        v.cursor_col >= 0,
        !(v.edit_col() == 0 && v.cursor_row > 0 && v.text[line_start(v.text, v.cursor_row) - 1] == '\r'),
        !(v.edit_col() > 0 && is_break_char(v.text[v.edit_point() - 1]) && v.text[v.edit_point() - 1]
            != '\r'),
    ensures
        v.after_insert_newline().after_backspace().text == v.text,
        v.after_insert_newline().after_backspace().cursor_row == v.cursor_row,
        v.cursor_col <= line_len(v.text, v.cursor_row) ==> v.after_insert_newline().after_backspace().cursor_col
            == v.cursor_col,
{
    let t = v.text;
    let row = v.cursor_row;
    let col = v.edit_col();
    let l = line_start(t, row);
    let p = v.edit_point();
    let t2 = t.insert(p, '\n');
    lemma_line_len_bounds(t, row);
    lemma_line_start_bounds(t, row, row + 1);
    let next = line_start(t, row + 1);
    assert(l <= p <= next);
    assert(t2.take(p) =~= t.take(p));
    assert(t2[p] == '\n');
    // Line `row` still starts at `l`.
    if row > 0 {
        lemma_line_start_props(t, row);
        assert forall|q: int| 0 <= q < l implies breaks_upto(t2, q) < row by {
            lemma_breaks_common_prefix(t, t2, p, q);
        }
        if l < p {
            lemma_breaks_common_prefix(t, t2, p, l);
        } else {
            lemma_breaks_common_prefix(t, t2, p, l - 1);
            assert(breaks_upto(t, l - 1) < row);
            assert(ends_line_at(t, l));
            assert(t2[l - 1] == t[l - 1]);
            assert(ends_line_at(t2, l));
        }
        lemma_line_start_at(t2, row, l);
    }
    assert(line_start(t2, row) == l);
    // Fewer than `row + 1` lines end by `p` in the new text.
    assert forall|q: int| 0 <= q < p implies breaks_upto(t2, q) < row + 1 by {
        lemma_breaks_common_prefix(t, t2, p, q);
        lemma_breaks_before_next_line(t, row, q);
    }
    if p > 0 {
        lemma_breaks_common_prefix(t, t2, p, p - 1);
        assert(t2[p - 1] == t[p - 1]);
        if ends_line_at(t2, p) {
            // The char before `p` is a break other than CR.
            assert(t[p - 1] != '\r');
            if col > 0 {
                assert(false);
            } else {
                assert(p == l);
                if row > 0 {
                    lemma_line_start_props(t, row);
                    assert(breaks_upto(t, l - 1) < row);
                } else {
                    assert(l == 0);
                }
            }
        }
        lemma_breaks_before_next_line(t, row, p - 1);
    }
    assert(breaks_upto(t2, p) < row + 1);
    // ... and `row + 1` by `p + 1`, the new LF.
    assert(ends_line_at(t2, p + 1));
    if row > 0 {
        lemma_line_start_props(t, row);
        if l < p {
            lemma_breaks_common_prefix(t, t2, p, l);
            lemma_breaks_bounds(t2, l, p);
        } else {
            assert(ends_line_at(t2, l));
        }
    }
    assert(breaks_upto(t2, p) >= row);
    assert(breaks_upto(t2, p + 1) >= row + 1);
    assert forall|q: int| 0 <= q < p + 1 implies breaks_upto(t2, q) < row + 1 by {
    }
    lemma_line_start_at(t2, row + 1, p + 1);
    lemma_breaks_bounds(t2, p + 1, t2.len() as int);
    assert(row + 1 < line_count(t2));
    assert(line_len(t2, row) == col);
    assert(t2.remove(p) =~= t);
}

/// Pasting back what a cut took restores the text: after the selection is
/// deleted (and the cursor moved to where it began), inserting the deleted
/// text gives the text as it was, marked modified. This holds where the
/// selection begins on the text, except where it begins a line right after
/// a lone CR and ends right before an LF: deleting it joins the two into one
/// CRLF line break. The cursor then stands where the selection ended, where
/// that end lies on the text and not right after a line's closing break
/// (which would put it at the start of the next line).
pub proof fn law_paste_restores_cut(v: BufferView)
    requires
        v.anchor matches Some((r, c)) && r >= 0 && c >= 0,
        v.cursor_row >= 0,
        v.cursor_col >= 0,
        v.selection() matches Some((start, end)) && 0 <= start.0 < line_count(v.text) && start.1
            <= line_len(v.text, start.0) && (v.selected_span() matches Some((a, b)) ==> !(start.1 == 0
            && start.0 > 0 && b < v.text.len() && v.text[a - 1] == '\r' && v.text[b] == '\n')),
    ensures
        v.selected_text() matches Some(t) ==> v.after_delete_selection().after_insert_str(t).text
            == v.text,
        v.selected_text() matches Some(t) ==> v.after_delete_selection().after_insert_str(t).modified,
        v.selected_text() matches Some(t) ==> (v.selection() matches Some((start, end)) ==> (end.0
            < line_count(v.text) && end.1 <= line_len(v.text, end.0) && (end.1 > 0 ==> !ends_line_at(
            v.text,
            line_start(v.text, end.0) + end.1,
        )) ==> v.after_delete_selection().after_insert_str(t).cursor_row == end.0
            && v.after_delete_selection().after_insert_str(t).cursor_col == end.1)),
{
    if let (Some((a, b)), Some((start, end))) = (v.selected_span(), v.selection()) {
        let t = v.text;
        let sr = start.0;
        let sc = start.1;
        let l = line_start(t, sr);
        let cut = t.take(a) + t.skip(b);
        let w = v.after_delete_selection();
        lemma_line_start_bounds(t, sr, sr);
        lemma_line_start_bounds(t, end.0, end.0);
        lemma_line_len_bounds(t, sr);
        assert(w.text == cut);
        assert(w.cursor_row == sr && w.cursor_col == sc);
        assert(cut.take(a) =~= t.take(a));
        // Line `sr` of the cut text starts where it did.
        if sr > 0 {
            lemma_line_start_props(t, sr);
            assert forall|q: int| 0 <= q < l implies breaks_upto(cut, q) < sr by {
                lemma_breaks_common_prefix(t, cut, a, q);
            }
            if l < a {
                lemma_breaks_common_prefix(t, cut, a, l);
            } else {
                lemma_breaks_common_prefix(t, cut, a, l - 1);
                assert(breaks_upto(t, l - 1) < sr);
                assert(ends_line_at(t, l));
                assert(cut[l - 1] == t[l - 1]);
                if l < cut.len() {
                    assert(cut[l] == t[b]);
                }
                assert(ends_line_at(cut, l));
            }
            lemma_line_start_at(cut, sr, l);
            lemma_breaks_bounds(cut, l, cut.len() as int);
        }
        assert(line_start(cut, sr) == l);
        lemma_line_count_bounds(cut);
        assert(sr < line_count(cut));
        // The line keeps at least `sc` chars.
        lemma_line_len_bounds(cut, sr);
        if sc > 0 {
            let m = line_start(cut, sr + 1);
            assert forall|q: int| 0 <= q < a implies breaks_upto(cut, q) < sr + 1 by {
                lemma_breaks_common_prefix(t, cut, a, q);
                lemma_breaks_before_next_line(t, sr, q);
            }
            lemma_line_start_not_before(cut, sr + 1, a);
            assert(m >= a);
            if m == a {
                assert(cut[a - 1] == t[a - 1]);
                if t[a - 1] == '\n' {
                    // Then line `sr` of the text would end at `a`, its LF
                    // before `a`, and `sc` would exceed its length.
                    assert(ends_line_at(t, a));
                    lemma_breaks_bounds(t, l, a - 1);
                    if sr > 0 {
                        lemma_line_start_props(t, sr);
                    }
                    assert(breaks_upto(t, a) >= sr + 1);
                    let n = line_start(t, sr + 1);
                    lemma_line_start_bounds(t, sr, sr + 1);
                    if a < n {
                        lemma_breaks_before_next_line(t, sr, a);
                    }
                    assert(n == a);
                    assert(line_len(t, sr) == a - l - 1);
                    assert(false);
                }
            }
        }
        assert(w.edit_row() == sr);
        assert(w.edit_col() == sc);
        assert(w.edit_point() == a);
        assert(cut.take(a) + t.subrange(a, b) + cut.skip(a) =~= t);
        let er = end.0;
        let ec = end.1;
        if er < line_count(t) && ec <= line_len(t, er) && (ec > 0 ==> !ends_line_at(t, b)) {
            // The end position names char `b`, on line `er`.
            let le = line_start(t, er);
            lemma_line_len_bounds(t, er);
            lemma_line_start_bounds(t, er, er + 1);
            assert(b == le + ec);
            if er > 0 {
                lemma_line_start_props(t, er);
                lemma_breaks_bounds(t, le, b);
            }
            assert(breaks_upto(t, b) >= er);
            if b < line_start(t, er + 1) {
                lemma_breaks_before_next_line(t, er, b);
            } else if ec > 0 {
                lemma_breaks_before_next_line(t, er, b - 1);
                assert(!ends_line_at(t, b));
            } else if er > 0 {
                assert(le >= 1);
                assert(breaks_upto(t, le - 1) < er);
            }
            assert(breaks_upto(t, b) == er);
            assert(line_of_char(t, b) == er);
            assert(t.subrange(a, b).len() == b - a);
        }
    }
}

impl BufferView {
    /// A view that a buffer can have: no negative position.
    pub open spec fn valid(self) -> bool {
        &&& self.cursor_row >= 0
        &&& self.cursor_col >= 0
        &&& self.scroll_offset >= 0
        &&& self.anchor matches Some((r, c)) ==> r >= 0 && c >= 0
    }

    /// The cursor is on the text: on one of its lines, within that line.
    pub open spec fn cursor_on_text(self) -> bool {
        &&& 0 <= self.cursor_row < line_count(self.text)
        &&& 0 <= self.cursor_col <= line_len(self.text, self.cursor_row)
    }
}

/// Cursor movement keeps the cursor on the text and leaves the text, the
/// selection's anchor and the file as they were.
pub proof fn law_moves_keep_cursor_on_text(v: BufferView)
    requires
        v.cursor_on_text(),
    ensures
        v.after_move_up().cursor_on_text(),
        v.after_move_down().cursor_on_text(),
        v.after_move_left().cursor_on_text(),
        v.after_move_right().cursor_on_text(),
        v.after_move_home().cursor_on_text(),
        v.after_move_end().cursor_on_text(),
        v.after_move_up().text == v.text && v.after_move_up().anchor == v.anchor,
        v.after_move_down().text == v.text && v.after_move_down().anchor == v.anchor,
        v.after_move_left().text == v.text && v.after_move_left().anchor == v.anchor,
        v.after_move_right().text == v.text && v.after_move_right().anchor == v.anchor,
        v.after_move_home().text == v.text && v.after_move_home().anchor == v.anchor,
        v.after_move_end().text == v.text && v.after_move_end().anchor == v.anchor,
{
    lemma_line_len_bounds(v.text, v.cursor_row);
    lemma_line_len_bounds(v.text, v.cursor_row - 1);
    lemma_line_len_bounds(v.text, v.cursor_row + 1);
}

/// The selection runs from its earlier end to its later one, and a
/// position is selected exactly when it lies from the first end (included)
/// to the second (excluded).
pub proof fn law_selection_in_reading_order(v: BufferView, row: int, col: int)
    ensures
        v.selection() matches Some((start, end)) ==> pos_le(start, end),
        v.selection() matches Some((start, end)) ==> (start == (v.cursor_row, v.cursor_col) || end == (
            v.cursor_row,
            v.cursor_col,
        )),
        v.selects(row, col) <==> (v.selection() matches Some((start, end)) && pos_le(start, (row, col))
            && pos_lt((row, col), end)),
        v.anchor is None ==> !v.selects(row, col),
{
}

/// Toggling the mark twice leaves no trace when no mark was set; when one
/// was, the mark ends up at the cursor. Neither toggle touches the text or
/// the cursor.
pub proof fn law_toggle_mark_twice(v: BufferView)
    ensures
        v.anchor is None ==> v.after_toggle_mark().after_toggle_mark() == v,
        v.anchor is Some ==> v.after_toggle_mark().after_toggle_mark() == (BufferView {
            anchor: Some((v.cursor_row, v.cursor_col)),
            ..v
        }),
        v.after_toggle_mark().text == v.text,
        v.after_toggle_mark().cursor_row == v.cursor_row,
        v.after_toggle_mark().cursor_col == v.cursor_col,
{
}

/// Cutting takes exactly the selected text: the rest of the text, with the
/// taken text put back where the selection began, is the text as it was;
/// and with nothing to take, nothing changes.
pub proof fn law_cut_takes_selection(v: BufferView)
    requires
        v.valid(),
    ensures
        v.selected_span() matches Some((a, b)) ==> v.after_delete_selection().text.take(a)
            + v.selected_text()->0 + v.after_delete_selection().text.skip(a) == v.text,
        v.selected_span() is None ==> v.after_delete_selection() == v,
        v.selected_span() is Some ==> v.after_delete_selection().anchor is None,
{
    if let (Some((a, b)), Some(_)) = (v.selected_span(), v.selection()) {
        let t = v.text;
        let cut = t.take(a) + t.skip(b);
        lemma_delete_selection_shrinks(v);
        match v.selection() {
            Some((start, end)) => {
                lemma_line_start_bounds(t, start.0, start.0);
            },
            None => {},
        }
        assert(cut.take(a) + t.subrange(a, b) + cut.skip(a) =~= t);
    }
}

/// Deleting the selection never lengthens the text.
pub proof fn lemma_delete_selection_shrinks(v: BufferView)
    requires
        v.valid(),
    ensures
        v.after_delete_selection().text.len() <= v.text.len(),
{
    match (v.selected_span(), v.selection()) {
        (Some((a, b)), Some((start, end))) => {
            assert(0 <= a < b <= v.text.len()) by {
                lemma_line_start_bounds(v.text, start.0, start.0);
                lemma_line_start_bounds(v.text, end.0, end.0);
            }
            assert((v.text.take(a) + v.text.skip(b)).len() == a + v.text.len() - b);
        },
        _ => {},
    }
}

/// `s` with every LF left out.
pub open spec fn drop_lf(s: Seq<char>) -> Seq<char>
    decreases s.len(),
{
    if s.len() == 0 {
        s
    } else if s.last() == '\n' {
        drop_lf(s.drop_last())
    } else {
        drop_lf(s.drop_last()).push(s.last())
    }
}

proof fn lemma_drop_lf_len(s: Seq<char>)
    ensures
        drop_lf(s).len() <= s.len(),
    decreases s.len(),
{
    if s.len() > 0 {
        lemma_drop_lf_len(s.drop_last());
    }
}

/// The chars of line `line` that a pane `width` chars wide shows: the
/// first `width` chars of the line, its line feed left out.
pub open spec fn shown_chars(text: Seq<char>, line: int, width: int) -> Seq<char> {
    let whole = text.subrange(line_start(text, line), line_start(text, line + 1));
    drop_lf(if width < whole.len() { whole.take(width) } else { whole })
}

/// The byte offset in the UTF-8 text of char `i`.
pub open spec fn byte_of(text: Seq<char>, i: int) -> int {
    encode_utf8(text.take(i)).len() as int
}

pub struct Buffer {
    pub rope: Rope,
    pub cursor_row: usize,
    pub cursor_col: usize,
    pub scroll_offset: usize,
    pub file_path: Option<String>,
    pub modified: bool,
    /// The selection's fixed end, `(row, col)`.
    pub anchor: Option<(usize, usize)>,
}

impl View for Buffer {
    type V = BufferView;

    open spec fn view(&self) -> BufferView {
        BufferView {
            text: rope_chars(self.rope),
            cursor_row: self.cursor_row as int,
            cursor_col: self.cursor_col as int,
            scroll_offset: self.scroll_offset as int,
            file_path: match self.file_path {
                Some(p) => Some(p@),
                None => None,
            },
            modified: self.modified,
            anchor: match self.anchor {
                Some((r, c)) => Some((r as int, c as int)),
                None => None,
            },
        }
    }
}

impl Buffer {
    pub fn new() -> (b: Buffer)
        ensures
            b@ == BufferView::empty(),
    {
        Buffer {
            rope: rope_new(),
            cursor_row: 0,
            cursor_col: 0,
            scroll_offset: 0,
            file_path: None,
            modified: false,
            anchor: None,
        }
    }

    /// Loads `contents`, read from `path`, with the cursor at the start.
    pub fn open_file(&mut self, path: String, contents: &str)
        ensures
            final(self)@ == BufferView::opened(path@, contents@),
    {
        self.rope = rope_from_str(contents);
        self.file_path = Some(path);
        self.cursor_row = 0;
        self.cursor_col = 0;
        self.scroll_offset = 0;
        self.modified = false;
        self.anchor = None;
    }

    /// The whole text, as it is to be written to the file.
    pub fn text(&self) -> (s: String)
        ensures
            s@ == self@.text,
    {
        rope_string(&self.rope)
    }

    /// Saving: `written` is how writing `text()` to the buffer's file went
    /// (`Ok` where the buffer has no file, for then nothing is written). On
    /// success a buffer with a file is no longer modified; an error is
    /// handed back and nothing changes.
    pub fn save(&mut self, written: Result<(), String>) -> (r: Result<(), String>)
        ensures
            r == written,
            match written {
                Ok(()) => final(self)@ == if old(self)@.file_path is Some {
                    BufferView { modified: false, ..old(self)@ }
                } else {
                    old(self)@
                },
                Err(_) => final(self)@ == old(self)@,
            },
    {
        if written.is_ok() && self.file_path.is_some() {
            self.modified = false;
        }
        written
    }

    // --- Selection ---
    /// Toggle mark: set anchor at cursor, or clear if already set.
    pub fn toggle_mark(&mut self)
        ensures
            final(self)@ == old(self)@.after_toggle_mark(),
    {
        if self.anchor.is_some() {
            self.anchor = None;
        } else {
            self.anchor = Some((self.cursor_row, self.cursor_col));
        }
    }

    /// Clear selection.
    pub fn clear_selection(&mut self)
        ensures
            final(self)@ == old(self)@.after_clear_selection(),
    {
        self.anchor = None;
    }

    /// Returns (start, end) positions ordered, where each is (row, col).
    pub fn selection_range(&self) -> (r: Option<((usize, usize), (usize, usize))>)
        ensures
            match r {
                None => self@.selection() is None,
                Some(((sr, sc), (er, ec))) => self@.selection() == Some(
                    ((sr as int, sc as int), (er as int, ec as int)),
                ),
            },
    {
        let anchor = match self.anchor {
            Some(a) => a,
            None => {
                return None;
            },
        };
        let cursor = (self.cursor_row, self.cursor_col);
        if anchor.0 < cursor.0 || (anchor.0 == cursor.0 && anchor.1 <= cursor.1) {
            Some((anchor, cursor))
        } else {
            Some((cursor, anchor))
        }
    }

    /// Returns true if (row, col) is inside the current selection.
    pub fn is_selected(&self, row: usize, col: usize) -> (b: bool)
        ensures
            b == self@.selects(row as int, col as int),
    {
        let (start, end) = match self.selection_range() {
            Some(r) => r,
            None => {
                return false;
            },
        };
        let after_start = start.0 < row || (start.0 == row && start.1 <= col);
        let before_end = row < end.0 || (row == end.0 && col < end.1);
        after_start && before_end
    }

    /// Extract selected text as a String.
    pub fn selected_text(&self) -> (t: Option<String>)
        requires
            self@.selection_ok(),
        ensures
            match t {
                None => self@.selected_text() is None,
                Some(s) => self@.selected_text() == Some(s@),
            },
    {
        let ((sr, sc), (er, ec)) = match self.selection_range() {
            Some(r) => r,
            None => {
                return None;
            },
        };
        let start_char = rope_line_to_char(&self.rope, sr) + sc;
        let end_char = rope_line_to_char(&self.rope, er) + ec;
        if start_char >= end_char || end_char > rope_len_chars(&self.rope) {
            return None;
        }
        Some(rope_slice_string(&self.rope, start_char, end_char))
    }

    /// Delete the selected range and return the deleted text.
    pub fn delete_selection(&mut self) -> (t: Option<String>)
        requires
            old(self)@.selection_ok(),
        ensures
            final(self)@ == old(self)@.after_delete_selection(),
            match t {
                None => old(self)@.selected_text() is None,
                Some(s) => old(self)@.selected_text() == Some(s@),
            },
    {
        let text = match self.selected_text() {
            Some(t) => t,
            None => {
                return None;
            },
        };
        let ((sr, sc), (er, ec)) = match self.selection_range() {
            Some(r) => r,
            None => {
                return None;
            },
        };
        let start_char = rope_line_to_char(&self.rope, sr) + sc;
        let end_char = rope_line_to_char(&self.rope, er) + ec;
        if start_char < end_char && end_char <= rope_len_chars(&self.rope) {
            rope_remove(&mut self.rope, start_char, end_char);
            self.cursor_row = sr;
            self.cursor_col = sc;
            self.modified = true;
        }
        self.anchor = None;
        Some(text)
    }

    /// The edit point for the cursor: its row kept within the text, its
    /// column kept within that line, and the char position they name.
    fn edit_point(&self) -> (r: (usize, usize, usize))
        requires
            self@.text.len() <= usize::MAX,
        ensures
            r.0 == self@.edit_row(),
            r.1 == self@.edit_col(),
            r.2 == self@.edit_point(),
            r.1 <= r.2 <= self@.text.len(),
    {
        proof {
            lemma_line_count_bounds(self@.text);
        }
        let n_lines = rope_len_lines(&self.rope);
        let last = n_lines - 1;
        let line_idx = if self.cursor_row < last {
            self.cursor_row
        } else {
            last
        };
        let line_start = rope_line_to_char(&self.rope, line_idx);
        let line_len = self.line_len(line_idx);
        let col = if self.cursor_col < line_len {
            self.cursor_col
        } else {
            line_len
        };
        proof {
            lemma_line_len_bounds(self@.text, line_idx as int);
        }
        (line_idx, col, line_start + col)
    }

    /// Insert a string at cursor position.
    pub fn insert_str(&mut self, s: &str)
        requires
            old(self)@.text.len() + s@.len() <= usize::MAX,
        ensures
            final(self)@ == old(self)@.after_insert_str(s@),
    {
        let (_, _, char_idx) = self.edit_point();
        rope_insert(&mut self.rope, char_idx, s);
        // Move cursor to end of inserted text
        let inserted_chars = char_count(s);
        let new_pos = char_idx + inserted_chars;
        if new_pos <= rope_len_chars(&self.rope) {
            let new_line = rope_char_to_line(&self.rope, new_pos);
            proof {
                lemma_line_of_char_start(self@.text, new_pos as int);
            }
            let new_col = new_pos - rope_line_to_char(&self.rope, new_line);
            self.cursor_row = new_line;
            self.cursor_col = new_col;
        }
        self.modified = true;
    }

    // --- Basic editing ---
    pub fn insert_char(&mut self, c: char)
        requires
            old(self)@.text.len() < usize::MAX,
        ensures
            final(self)@ == old(self)@.after_insert_char(c),
    {
        let (_, col, char_idx) = self.edit_point();
        rope_insert_char(&mut self.rope, char_idx, c);
        self.cursor_col = col + 1;
        self.modified = true;
    }

    pub fn insert_newline(&mut self)
        requires
            old(self)@.text.len() < usize::MAX,
            old(self).cursor_row < usize::MAX,
        ensures
            final(self)@ == old(self)@.after_insert_newline(),
    {
        let (_, _, char_idx) = self.edit_point();
        rope_insert_char(&mut self.rope, char_idx, '\n');
        self.cursor_row += 1;
        self.cursor_col = 0;
        self.modified = true;
    }

    pub fn backspace(&mut self)
        requires
            old(self)@.backspace_ok(),
        ensures
            final(self)@ == old(self)@.after_backspace(),
    {
        let total = rope_len_chars(&self.rope);
        if self.cursor_col > 0 {
            let line_start = rope_line_to_char(&self.rope, self.cursor_row);
            let char_idx = line_start + self.cursor_col - 1;
            rope_remove(&mut self.rope, char_idx, char_idx + 1);
            self.cursor_col -= 1;
            self.modified = true;
        } else if self.cursor_row > 0 {
            let prev_line_len = self.line_len(self.cursor_row - 1);
            let line_start = rope_line_to_char(&self.rope, self.cursor_row);
            proof {
                lemma_line_start_bounds(self@.text, self.cursor_row as int, self.cursor_row as int);
            }
            rope_remove(&mut self.rope, line_start - 1, line_start);
            self.cursor_row -= 1;
            self.cursor_col = prev_line_len;
            self.modified = true;
        }
    }

    pub fn delete(&mut self)
        requires
            old(self).cursor_row <= line_count(old(self)@.text),
        ensures
            final(self)@ == old(self)@.after_delete(),
    {
        let total = rope_len_chars(&self.rope);
        let line_idx = self.cursor_row;
        let line_start = rope_line_to_char(&self.rope, line_idx);
        let line_len = self.line_len(line_idx);
        let col = if self.cursor_col < line_len {
            self.cursor_col
        } else {
            line_len
        };
        proof {
            lemma_line_len_bounds(self@.text, line_idx as int);
            lemma_line_start_bounds(self@.text, line_idx as int, line_idx as int);
        }
        let char_idx = line_start + col;
        if char_idx < total {
            rope_remove(&mut self.rope, char_idx, char_idx + 1);
            self.modified = true;
        }
    }

    // --- Cursor movement ---
    pub fn move_up(&mut self)
        ensures
            final(self)@ == old(self)@.after_move_up(),
    {
        if self.cursor_row > 0 {
            self.cursor_row -= 1;
            self.clamp_cursor_col();
        }
    }

    pub fn move_down(&mut self)
        ensures
            final(self)@ == old(self)@.after_move_down(),
    {
        proof {
            lemma_line_count_bounds(self@.text);
        }
        if self.cursor_row < rope_len_lines(&self.rope) - 1 {
            self.cursor_row += 1;
            self.clamp_cursor_col();
        }
    }

    pub fn move_left(&mut self)
        ensures
            final(self)@ == old(self)@.after_move_left(),
    {
        if self.cursor_col > 0 {
            self.cursor_col -= 1;
        } else if self.cursor_row > 0 {
            self.cursor_row -= 1;
            self.cursor_col = self.line_len(self.cursor_row);
        }
    }

    pub fn move_right(&mut self)
        ensures
            final(self)@ == old(self)@.after_move_right(),
    {
        proof {
            lemma_line_count_bounds(self@.text);
        }
        let line_len = self.line_len(self.cursor_row);
        if self.cursor_col < line_len {
            self.cursor_col += 1;
        } else if self.cursor_row < rope_len_lines(&self.rope) - 1 {
            self.cursor_row += 1;
            self.cursor_col = 0;
        }
    }

    pub fn move_home(&mut self)
        ensures
            final(self)@ == old(self)@.after_move_home(),
    {
        self.cursor_col = 0;
    }

    pub fn move_end(&mut self)
        ensures
            final(self)@ == old(self)@.after_move_end(),
    {
        self.cursor_col = self.line_len(self.cursor_row);
    }

    /// Returns the length of a line excluding the trailing newline.
    pub fn line_len(&self, line_idx: usize) -> (n: usize)
        ensures
            n == line_len(self@.text, line_idx as int),
    {
        if line_idx >= rope_len_lines(&self.rope) {
            return 0;
        }
        proof {
            lemma_line_start_bounds(self@.text, line_idx as int, line_idx + 1);
        }
        let start = rope_line_to_char(&self.rope, line_idx);
        let next = rope_line_to_char(&self.rope, line_idx + 1);
        let len = next - start;
        if len > 0 && rope_char(&self.rope, start + len - 1) == '\n' {
            len - 1
        } else {
            len
        }
    }

    fn clamp_cursor_col(&mut self)
        ensures
            final(self)@ == (BufferView {
                cursor_col: old(self)@.clamped_col(old(self).cursor_row as int, old(self).cursor_col as int),
                ..old(self)@
            }),
    {
        let line_len = self.line_len(self.cursor_row);
        if self.cursor_col > line_len {
            self.cursor_col = line_len;
        }
    }

    /// What the editor pane draws of line `line_idx` in a pane `width`
    /// chars wide: the chars shown, the byte offset of each of them and,
    /// last, of the char after them, and the byte offset where the line
    /// starts.
    pub fn line_view(&self, line_idx: usize, width: usize) -> (r: (Vec<char>, Vec<usize>, usize))
        requires
            line_idx < line_count(self@.text),
        ensures
            r.0@ == shown_chars(self@.text, line_idx as int, width as int),
            r.1@.len() == r.0@.len() + 1,
            forall|k: int|
                0 <= k <= r.0@.len() ==> #[trigger] r.1@[k] == byte_of(
                    self@.text,
                    line_start(self@.text, line_idx as int) + k,
                ),
            r.2 == byte_of(self@.text, line_start(self@.text, line_idx as int)),
    {
        let ghost text = self@.text;
        proof {
            lemma_line_start_bounds(text, line_idx as int, line_idx + 1);
        }
        let n_lines = rope_len_lines(&self.rope);
        assert(line_idx + 1 <= n_lines);
        let start = rope_line_to_char(&self.rope, line_idx);
        let next = rope_line_to_char(&self.rope, line_idx + 1);
        let end = if next - start > width {
            start + width
        } else {
            next
        };
        let ghost whole = text.subrange(start as int, next as int);
        assert(text.subrange(start as int, end as int) =~= if width < whole.len() {
            whole.take(width as int)
        } else {
            whole
        });
        let mut chars: Vec<char> = Vec::new();
        let mut k = start;
        assert(text.subrange(start as int, start as int) =~= Seq::<char>::empty());
        while k < end
            invariant
                text == self@.text,
                start <= k <= end <= text.len(),
                chars@ == drop_lf(text.subrange(start as int, k as int)),
            decreases end - k,
        {
            let c = rope_char(&self.rope, k);
            assert(text.subrange(start as int, k + 1).drop_last() =~= text.subrange(start as int, k as int));
            if c != '\n' {
                chars.push(c);
            }
            k = k + 1;
        }
        proof {
            lemma_drop_lf_len(text.subrange(start as int, end as int));
        }
        let last = start + chars.len();
        let mut offsets: Vec<usize> = Vec::new();
        let mut p = start;
        loop
            invariant_except_break
                offsets@.len() == p - start,
                forall|i: int| 0 <= i < p - start ==> #[trigger] offsets@[i] == byte_of(text, start + i),
            invariant
                text == self@.text,
                start <= p <= last <= end <= text.len(),
                last == start + chars@.len(),
            ensures
                offsets@.len() == last - start + 1,
                forall|i: int| 0 <= i <= last - start ==> #[trigger] offsets@[i] == byte_of(text, start + i),
            decreases last - p,
        {
            let b = rope_char_to_byte(&self.rope, p);
            offsets.push(b);
            if p == last {
                break;
            }
            p = p + 1;
        }
        let line_byte_start = rope_char_to_byte(&self.rope, start);
        (chars, offsets, line_byte_start)
    }

    /// The number of chars in the text.
    pub fn len_chars(&self) -> (n: usize)
        ensures
            n == self@.text.len(),
    {
        rope_len_chars(&self.rope)
    }

    /// Whether position `(row, col)` names a char index that a `usize`
    /// holds: its row is at most one past the last line.
    fn position_fits(&self, row: usize, col: usize) -> (b: bool)
        ensures
            b == (row <= line_count(self@.text) && line_start(self@.text, row as int) + col
                <= usize::MAX),
    {
        if row > rope_len_lines(&self.rope) {
            return false;
        }
        let start = rope_line_to_char(&self.rope, row);
        start.checked_add(col).is_some()
    }

    /// Whether the selection's ends lie where the rope can find them, as
    /// copying or cutting it asks.
    pub fn selection_in_text(&self) -> (b: bool)
        ensures
            b == self@.selection_ok(),
    {
        match self.selection_range() {
            None => true,
            Some((start, end)) => self.position_fits(start.0, start.1) && self.position_fits(end.0, end.1),
        }
    }

    /// Whether the cursor lies where backspace can find the char before it.
    pub fn backspace_in_text(&self) -> (b: bool)
        ensures
            b == self@.backspace_ok(),
    {
        let total = rope_len_chars(&self.rope);
        if self.cursor_col > 0 {
            if self.cursor_row > rope_len_lines(&self.rope) {
                return false;
            }
            let start = rope_line_to_char(&self.rope, self.cursor_row);
            match start.checked_add(self.cursor_col) {
                Some(p) => p <= total,
                None => false,
            }
        } else if self.cursor_row > 0 {
            if self.cursor_row > rope_len_lines(&self.rope) {
                return false;
            }
            rope_line_to_char(&self.rope, self.cursor_row) >= 1
        } else {
            true
        }
    }

    /// Whether the cursor's row is at most one past the last line, as
    /// delete asks.
    pub fn delete_in_text(&self) -> (b: bool)
        ensures
            b == (self.cursor_row <= line_count(self@.text)),
    {
        self.cursor_row <= rope_len_lines(&self.rope)
    }

    /// Adjusts scroll_offset so the cursor is visible within pane_height lines.
    pub fn ensure_cursor_visible(&mut self, pane_height: usize)
        requires
            old(self).scroll_offset + pane_height <= usize::MAX,
        ensures
            final(self)@ == old(self)@.after_scroll_to_cursor(pane_height as int),
    {
        if pane_height == 0 {
            return;
        }
        if self.cursor_row < self.scroll_offset {
            self.scroll_offset = self.cursor_row;
        } else if self.cursor_row >= self.scroll_offset + pane_height {
            self.scroll_offset = self.cursor_row - pane_height + 1;
        }
    }
}

/// The number of chars in `s`.
pub fn char_count(s: &str) -> (n: usize)
    requires
        s@.len() <= usize::MAX,
    ensures
        n == s@.len(),
{
    let mut n: usize = 0;
    for c in it: s.chars()
        invariant
            n == it.index(),
            it.seq() == s@,
            s@.len() <= usize::MAX,
    {
        n = n + 1;
    }
    n
}

} // verus!
