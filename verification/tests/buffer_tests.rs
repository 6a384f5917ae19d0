use mewtui::editor::buffer::{char_count, Buffer};

fn opened(text: &str) -> Buffer {
    let mut b = Buffer::new();
    b.open_file("notes.txt".to_string(), text);
    b
}

#[test]
fn insert_and_backspace() {
    let mut b = Buffer::new();
    b.insert_char('a');
    b.insert_char('b');
    assert_eq!(b.text(), "ab");
    assert_eq!(b.cursor_col, 2);
    b.backspace();
    assert_eq!(b.text(), "a");
}

#[test]
fn new_buffer_is_empty_and_unmodified() {
    let b = Buffer::new();
    assert_eq!(b.text(), "");
    assert_eq!(b.len_chars(), 0);
    assert_eq!((b.cursor_row, b.cursor_col, b.scroll_offset), (0, 0, 0));
    assert!(!b.modified);
    assert!(b.file_path.is_none());
    assert!(b.anchor.is_none());
}

#[test]
fn open_file_loads_text_and_resets_cursor() {
    let mut b = Buffer::new();
    b.insert_char('x');
    b.toggle_mark();
    b.open_file("src/main.rs".to_string(), "fn main() {}\n");
    assert_eq!(b.text(), "fn main() {}\n");
    assert_eq!(b.file_path.as_deref(), Some("src/main.rs"));
    assert_eq!((b.cursor_row, b.cursor_col), (0, 0));
    assert!(!b.modified);
    assert!(b.anchor.is_none());
}

#[test]
fn insert_char_at_cursor_marks_modified() {
    let mut b = opened("ac");
    b.move_right();
    b.insert_char('b');
    assert_eq!(b.text(), "abc");
    assert_eq!(b.cursor_col, 2);
    assert!(b.modified);
}

#[test]
fn insert_char_past_line_end_goes_at_line_end() {
    let mut b = opened("ab\ncd");
    b.cursor_col = 9;
    b.insert_char('!');
    assert_eq!(b.text(), "ab!\ncd");
    assert_eq!(b.cursor_col, 3);
}

#[test]
fn insert_newline_splits_line() {
    let mut b = opened("abcd");
    b.move_right();
    b.move_right();
    b.insert_newline();
    assert_eq!(b.text(), "ab\ncd");
    assert_eq!((b.cursor_row, b.cursor_col), (1, 0));
}

#[test]
fn insert_str_moves_cursor_to_end_of_insert() {
    let mut b = opened("xy");
    b.move_right();
    b.insert_str("12\n34");
    assert_eq!(b.text(), "x12\n34y");
    assert_eq!((b.cursor_row, b.cursor_col), (1, 2));
    assert!(b.modified);
}

#[test]
fn backspace_at_line_start_joins_lines() {
    let mut b = opened("ab\ncd");
    b.move_down();
    assert_eq!((b.cursor_row, b.cursor_col), (1, 0));
    b.backspace();
    assert_eq!(b.text(), "abcd");
    assert_eq!((b.cursor_row, b.cursor_col), (0, 2));
}

#[test]
fn backspace_at_start_of_text_does_nothing() {
    let mut b = opened("ab");
    b.backspace();
    assert_eq!(b.text(), "ab");
    assert!(!b.modified);
}

#[test]
fn delete_removes_char_at_cursor_and_joins_at_line_end() {
    let mut b = opened("ab\ncd");
    b.delete();
    assert_eq!(b.text(), "b\ncd");
    b.move_end();
    b.delete();
    assert_eq!(b.text(), "bcd");
    b.move_end();
    b.delete();
    assert_eq!(b.text(), "bcd");
}

#[test]
fn moves_clamp_column_to_line_length() {
    let mut b = opened("long line\nab\nlonger line");
    b.move_end();
    assert_eq!(b.cursor_col, 9);
    b.move_down();
    assert_eq!((b.cursor_row, b.cursor_col), (1, 2));
    b.move_down();
    assert_eq!((b.cursor_row, b.cursor_col), (2, 2));
    b.move_down();
    assert_eq!(b.cursor_row, 2);
    b.move_home();
    assert_eq!(b.cursor_col, 0);
    b.move_up();
    b.move_up();
    b.move_up();
    assert_eq!((b.cursor_row, b.cursor_col), (0, 0));
}

#[test]
fn left_and_right_wrap_across_lines() {
    let mut b = opened("ab\ncd");
    b.move_end();
    b.move_right();
    assert_eq!((b.cursor_row, b.cursor_col), (1, 0));
    b.move_left();
    assert_eq!((b.cursor_row, b.cursor_col), (0, 2));
    b.move_home();
    b.move_left();
    assert_eq!((b.cursor_row, b.cursor_col), (0, 0));
}

#[test]
fn line_len_excludes_line_break() {
    let b = opened("abc\r\nde\nf");
    // Only the final LF is dropped: a CR before it counts.
    assert_eq!(b.line_len(0), 4);
    assert_eq!(b.line_len(1), 2);
    assert_eq!(b.line_len(2), 1);
    assert_eq!(b.line_len(3), 0);
    let lf = opened("abc\n");
    assert_eq!(lf.line_len(0), 3);
    assert_eq!(lf.line_len(1), 0);
}

#[test]
fn selection_range_orders_ends() {
    let mut b = opened("hello\nworld");
    assert_eq!(b.selection_range(), None);
    b.move_down();
    b.move_end();
    b.toggle_mark();
    b.move_up();
    b.move_home();
    assert_eq!(b.selection_range(), Some(((0, 0), (1, 5))));
    assert!(b.is_selected(0, 0));
    assert!(b.is_selected(1, 4));
    assert!(!b.is_selected(1, 5));
}

#[test]
fn toggle_mark_twice_clears_it() {
    let mut b = opened("abc");
    b.toggle_mark();
    assert_eq!(b.anchor, Some((0, 0)));
    b.toggle_mark();
    assert_eq!(b.anchor, None);
    b.toggle_mark();
    b.clear_selection();
    assert_eq!(b.anchor, None);
}

#[test]
fn selected_text_spans_lines() {
    let mut b = opened("hello\nworld");
    b.move_right();
    b.toggle_mark();
    b.move_down();
    b.move_right();
    assert_eq!(b.selected_text().as_deref(), Some("ello\nwo"));
}

#[test]
fn empty_selection_has_no_text() {
    let mut b = opened("abc");
    b.toggle_mark();
    assert_eq!(b.selected_text(), None);
    assert_eq!(b.delete_selection(), None);
    assert_eq!(b.anchor, Some((0, 0)));
    assert_eq!(b.text(), "abc");
}

#[test]
fn cut_then_paste_restores_text() {
    let mut b = opened("one two three");
    for _ in 0..4 {
        b.move_right();
    }
    b.toggle_mark();
    for _ in 0..4 {
        b.move_right();
    }
    let cut = b.delete_selection();
    assert_eq!(cut.as_deref(), Some("two "));
    assert_eq!(b.text(), "one three");
    assert_eq!((b.cursor_row, b.cursor_col), (0, 4));
    assert_eq!(b.anchor, None);
    b.insert_str(&cut.unwrap());
    assert_eq!(b.text(), "one two three");
    assert_eq!((b.cursor_row, b.cursor_col), (0, 8));
    assert!(b.modified);
}

#[test]
fn backspace_undoes_enter() {
    let mut b = opened("ab\ncd");
    b.move_down();
    b.move_right();
    b.insert_newline();
    assert_eq!(b.text(), "ab\nc\nd");
    assert_eq!((b.cursor_row, b.cursor_col), (2, 0));
    b.backspace();
    assert_eq!(b.text(), "ab\ncd");
    assert_eq!((b.cursor_row, b.cursor_col), (1, 1));
}

#[test]
fn paste_after_multiline_cut_ends_at_selection_end() {
    let mut b = opened("ab\ncd\nef");
    b.move_right();
    b.toggle_mark();
    b.move_down();
    b.move_down();
    let cut = b.delete_selection().unwrap();
    assert_eq!(cut, "b\ncd\ne");
    assert_eq!(b.text(), "af");
    b.insert_str(&cut);
    assert_eq!(b.text(), "ab\ncd\nef");
    assert_eq!((b.cursor_row, b.cursor_col), (2, 1));
}

#[test]
fn delete_selection_backwards_puts_cursor_at_start() {
    let mut b = opened("abcdef");
    b.move_end();
    b.toggle_mark();
    b.move_left();
    b.move_left();
    b.move_left();
    assert_eq!(b.delete_selection().as_deref(), Some("def"));
    assert_eq!(b.text(), "abc");
    assert_eq!(b.cursor_col, 3);
}

#[test]
fn insert_then_backspace_restores_text() {
    let mut b = opened("ab\ncd");
    b.move_down();
    b.move_right();
    b.insert_char('X');
    assert_eq!(b.text(), "ab\ncXd");
    b.backspace();
    assert_eq!(b.text(), "ab\ncd");
    assert_eq!((b.cursor_row, b.cursor_col), (1, 1));
}

#[test]
fn ensure_cursor_visible_scrolls_both_ways() {
    let mut b = opened("0\n1\n2\n3\n4\n5\n6\n7\n8\n9");
    for _ in 0..7 {
        b.move_down();
    }
    b.ensure_cursor_visible(3);
    assert_eq!(b.scroll_offset, 5);
    b.move_up();
    b.move_up();
    b.move_up();
    b.ensure_cursor_visible(3);
    assert_eq!(b.scroll_offset, 4);
    b.ensure_cursor_visible(0);
    assert_eq!(b.scroll_offset, 4);
}

#[test]
fn save_marks_saved_only_on_success_with_a_file() {
    let mut b = opened("abc");
    b.insert_char('x');
    assert_eq!(b.save(Err("disk full".to_string())), Err("disk full".to_string()));
    assert!(b.modified);
    assert_eq!(b.save(Ok(())), Ok(()));
    assert!(!b.modified);
    let mut untitled = Buffer::new();
    untitled.insert_char('y');
    assert_eq!(untitled.save(Ok(())), Ok(()));
    assert!(untitled.modified);
}

#[test]
fn checks_before_editing() {
    let mut b = opened("ab\ncd");
    assert!(b.backspace_in_text());
    assert!(b.delete_in_text());
    assert!(b.selection_in_text());
    b.cursor_row = 9;
    b.cursor_col = 1;
    assert!(!b.backspace_in_text());
    assert!(!b.delete_in_text());
    b.toggle_mark();
    assert!(!b.selection_in_text());
}

#[test]
fn char_count_counts_chars_not_bytes() {
    assert_eq!(char_count(""), 0);
    assert_eq!(char_count("héllo"), 5);
    assert_eq!(char_count("日本"), 2);
}

#[test]
fn multibyte_text_is_edited_by_char() {
    let mut b = opened("日本");
    b.move_end();
    assert_eq!(b.cursor_col, 2);
    b.insert_char('語');
    assert_eq!(b.text(), "日本語");
    b.backspace();
    b.backspace();
    assert_eq!(b.text(), "日");
    assert_eq!(b.cursor_col, 1);
}

#[test]
fn line_view_gives_chars_and_byte_offsets() {
    let b = opened("ab\nçd\n");
    assert_eq!(b.line_view(0, 10), (vec!['a', 'b'], vec![0, 1, 2], 0));
    assert_eq!(b.line_view(1, 10), (vec!['ç', 'd'], vec![3, 5, 6], 3));
    assert_eq!(b.line_view(1, 1), (vec!['ç'], vec![3, 5], 3));
    assert_eq!(b.line_view(2, 10), (vec![], vec![7], 7));
    assert_eq!(b.line_view(0, 0), (vec![], vec![0], 0));
}
