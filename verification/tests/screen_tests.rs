use mewtui::shell::screen::{Cell, TerminalScreen};
use mewtui::theme::Color;

fn feed(s: &mut TerminalScreen, text: &str) {
    for c in text.chars() {
        match c {
            '\n' => s.execute(0x0A),
            '\r' => s.execute(0x0D),
            _ => s.print(c),
        }
    }
}

fn row_text(s: &TerminalScreen, r: usize) -> String {
    s.cells[r].iter().map(|c| c.c).collect()
}

fn csi(s: &mut TerminalScreen, params: &[u16], c: char) {
    let p = params.to_vec();
    assert!(s.csi_admissible(&p, c));
    s.csi_dispatch(&p, c);
}

#[test]
fn new_screen_is_blank() {
    let s = TerminalScreen::new(3, 4);
    assert_eq!(s.cells.len(), 3);
    assert!(s.cells.iter().all(|r| r.len() == 4));
    assert!(s.cells.iter().flatten().all(|c| *c == Cell::default()));
    assert_eq!((s.cursor_row, s.cursor_col, s.rows, s.cols), (0, 0, 3, 4));
    assert_eq!(Cell::default(), Cell { c: ' ', fg: None, bg: None, bold: false });
}

#[test]
fn printing_writes_and_wraps() {
    let mut s = TerminalScreen::new(3, 4);
    feed(&mut s, "abcdef");
    assert_eq!(row_text(&s, 0), "abcd");
    assert_eq!(row_text(&s, 1), "ef  ");
    assert_eq!((s.cursor_row, s.cursor_col), (1, 2));
}

#[test]
fn line_feed_at_bottom_scrolls() {
    let mut s = TerminalScreen::new(2, 3);
    feed(&mut s, "ab\r\ncd\r\nef");
    assert_eq!(row_text(&s, 0), "cd ");
    assert_eq!(row_text(&s, 1), "ef ");
    assert_eq!(s.cursor_row, 1);
}

#[test]
fn backspace_tab_and_bell() {
    let mut s = TerminalScreen::new(2, 20);
    s.execute(0x08);
    assert_eq!(s.cursor_col, 0);
    s.print('x');
    s.execute(0x09);
    assert_eq!(s.cursor_col, 8);
    s.execute(0x09);
    assert_eq!(s.cursor_col, 16);
    s.execute(0x09);
    assert_eq!(s.cursor_col, 19);
    s.execute(0x07);
    assert_eq!(s.cursor_col, 19);
    s.execute(0x08);
    assert_eq!(s.cursor_col, 18);
}

#[test]
fn cursor_movement_sequences() {
    let mut s = TerminalScreen::new(5, 10);
    csi(&mut s, &[3, 4], 'H');
    assert_eq!((s.cursor_row, s.cursor_col), (2, 3));
    csi(&mut s, &[], 'A');
    assert_eq!(s.cursor_row, 1);
    csi(&mut s, &[9], 'B');
    assert_eq!(s.cursor_row, 4);
    csi(&mut s, &[0], 'C');
    assert_eq!(s.cursor_col, 4);
    csi(&mut s, &[40], 'C');
    assert_eq!(s.cursor_col, 9);
    csi(&mut s, &[2], 'D');
    assert_eq!(s.cursor_col, 7);
    csi(&mut s, &[], 'H');
    assert_eq!((s.cursor_row, s.cursor_col), (0, 0));
    csi(&mut s, &[6], 'G');
    assert_eq!(s.cursor_col, 5);
    csi(&mut s, &[3], 'd');
    assert_eq!(s.cursor_row, 2);
    csi(&mut s, &[99, 99], 'f');
    assert_eq!((s.cursor_row, s.cursor_col), (4, 9));
}

#[test]
fn erase_in_line_modes() {
    let mut s = TerminalScreen::new(1, 6);
    feed(&mut s, "abcdef");
    csi(&mut s, &[4], 'G');
    csi(&mut s, &[], 'K');
    assert_eq!(row_text(&s, 0), "abc   ");
    feed(&mut s, "XYZ");
    csi(&mut s, &[2], 'G');
    csi(&mut s, &[1], 'K');
    assert_eq!(row_text(&s, 0), "  cXYZ");
    csi(&mut s, &[2], 'K');
    assert_eq!(row_text(&s, 0), "      ");
}

#[test]
fn erase_in_display_modes() {
    let mut s = TerminalScreen::new(3, 3);
    feed(&mut s, "abc\r\ndef\r\nghi");
    csi(&mut s, &[2, 2], 'H');
    csi(&mut s, &[], 'J');
    assert_eq!([row_text(&s, 0), row_text(&s, 1), row_text(&s, 2)], ["abc", "d  ", "   "]);
    feed(&mut s, "EF");
    csi(&mut s, &[2, 2], 'H');
    csi(&mut s, &[1], 'J');
    assert_eq!([row_text(&s, 0), row_text(&s, 1)], ["   ", "  F"]);
    csi(&mut s, &[2], 'J');
    assert!(s.cells.iter().flatten().all(|c| c.c == ' '));
}

#[test]
fn graphic_rendition_colors_and_reset() {
    let mut s = TerminalScreen::new(1, 8);
    csi(&mut s, &[1, 31, 42], 'm');
    s.print('a');
    assert_eq!(s.cells[0][0], Cell { c: 'a', fg: Some(Color::Red), bg: Some(Color::Green), bold: true });
    csi(&mut s, &[38, 5, 200, 48, 2, 1, 2, 3], 'm');
    s.print('b');
    assert_eq!(s.cells[0][1].fg, Some(Color::Indexed(200)));
    assert_eq!(s.cells[0][1].bg, Some(Color::Rgb(1, 2, 3)));
    csi(&mut s, &[22, 39, 94, 107], 'm');
    s.print('c');
    assert_eq!(s.cells[0][2], Cell { c: 'c', fg: Some(Color::LightBlue), bg: Some(Color::White), bold: false });
    csi(&mut s, &[], 'm');
    s.print('d');
    assert_eq!(s.cells[0][3], Cell { c: 'd', fg: None, bg: None, bold: false });
    csi(&mut s, &[97, 100, 0, 33], 'm');
    s.print('e');
    assert_eq!(s.cells[0][4].fg, Some(Color::Yellow));
    assert_eq!(s.cells[0][4].bg, None);
}

#[test]
fn incomplete_extended_color_is_skipped() {
    let mut s = TerminalScreen::new(1, 4);
    csi(&mut s, &[38, 5], 'm');
    s.print('a');
    assert_eq!(s.cells[0][0].fg, None);
    csi(&mut s, &[38, 2, 1, 2], 'm');
    s.print('b');
    assert_eq!(s.cells[0][1].fg, None);
}

#[test]
fn insert_and_delete_chars() {
    let mut s = TerminalScreen::new(1, 6);
    feed(&mut s, "abcdef");
    csi(&mut s, &[2], 'G');
    csi(&mut s, &[2], 'P');
    assert_eq!(row_text(&s, 0), "adef  ");
    csi(&mut s, &[3], '@');
    assert_eq!(row_text(&s, 0), "a   de");
    feed(&mut s, "XYZ");
    csi(&mut s, &[1], 'G');
    csi(&mut s, &[2], 'X');
    assert_eq!(row_text(&s, 0), "  YZde");
}

#[test]
fn insert_and_delete_lines() {
    let mut s = TerminalScreen::new(3, 2);
    feed(&mut s, "aa\r\nbb\r\ncc");
    csi(&mut s, &[2, 1], 'H');
    csi(&mut s, &[], 'L');
    assert_eq!([row_text(&s, 0), row_text(&s, 1), row_text(&s, 2)], ["aa", "  ", "bb"]);
    csi(&mut s, &[2], 'M');
    assert_eq!([row_text(&s, 0), row_text(&s, 1), row_text(&s, 2)], ["aa", "  ", "  "]);
    assert_eq!(s.cells.len(), 3);
}

#[test]
fn scroll_region_limits_scrolling() {
    let mut s = TerminalScreen::new(3, 1);
    feed(&mut s, "a\r\nb\r\nc");
    csi(&mut s, &[1, 2], 'r');
    csi(&mut s, &[2, 1], 'H');
    s.execute(0x0A);
    assert_eq!([row_text(&s, 0), row_text(&s, 1), row_text(&s, 2)], ["b", " ", "c"]);
    assert_eq!(s.cursor_row, 1);
}

#[test]
fn resize_keeps_content_and_clamps_cursor() {
    let mut s = TerminalScreen::new(3, 4);
    feed(&mut s, "abcd\r\nef\r\ngh");
    s.resize(2, 3);
    assert_eq!(s.cells.len(), 2);
    assert_eq!(row_text(&s, 0), "abc");
    assert_eq!(row_text(&s, 1), "ef ");
    assert_eq!((s.cursor_row, s.cursor_col), (1, 2));
    s.resize(4, 5);
    assert_eq!(row_text(&s, 0), "abc  ");
    assert_eq!(row_text(&s, 3), "     ");
    assert_eq!((s.rows, s.cols), (4, 5));
}

#[test]
fn osc_seven_reports_working_directory() {
    let mut s = TerminalScreen::new(1, 1);
    s.osc_dispatch(&vec![b"7".to_vec(), "file://host/home/me/My%20Dir/é".as_bytes().to_vec()]);
    assert_eq!(s.take_reported_cwd().as_deref(), Some("/home/me/My Dir/é"));
    assert_eq!(s.take_reported_cwd(), None);
    s.osc_dispatch(&vec![b"7;file:///tmp/x".to_vec()]);
    assert_eq!(s.reported_cwd.as_deref(), Some("/tmp/x"));
    s.osc_dispatch(&vec![b"0".to_vec(), b"title".to_vec()]);
    assert_eq!(s.reported_cwd.as_deref(), Some("/tmp/x"));
}

#[test]
fn osc_with_invalid_utf8_is_read_lossily() {
    let mut s = TerminalScreen::new(1, 1);
    s.osc_dispatch(&vec![b"7".to_vec(), b"file://h/a\xffb".to_vec()]);
    assert_eq!(s.take_reported_cwd().as_deref(), Some("/a\u{FFFD}b"));
}

#[test]
fn zero_sized_screen_refuses_what_would_fail() {
    let s = TerminalScreen::new(0, 0);
    assert!(!s.csi_admissible(&vec![3], 'M'));
    assert!(s.csi_admissible(&vec![], 'J'));
    assert!(s.csi_admissible(&vec![1], 'K'));
    let narrow = TerminalScreen::new(2, 0);
    assert!(!narrow.csi_admissible(&vec![1], 'K'));
    assert!(!narrow.csi_admissible(&vec![1], 'J'));
    assert!(narrow.csi_admissible(&vec![2], 'K'));
}
