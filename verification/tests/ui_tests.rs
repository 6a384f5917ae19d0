use mewtui::editor::highlight::ColorSpan;
use mewtui::shell::screen::Cell;
use mewtui::theme::Color;
use mewtui::ui::{line_char_colors, line_number_width, push_decimal, style_runs, tree_row_prefix};

#[test]
fn gutter_width_counts_digits() {
    assert_eq!(line_number_width(0), 1);
    assert_eq!(line_number_width(1), 1);
    assert_eq!(line_number_width(9), 1);
    assert_eq!(line_number_width(10), 2);
    assert_eq!(line_number_width(99), 2);
    assert_eq!(line_number_width(100), 3);
    assert_eq!(line_number_width(12345), 5);
    assert_eq!(line_number_width(usize::MAX), usize::MAX.to_string().len());
}

#[test]
fn gutter_width_agrees_with_the_float_formula_on_ordinary_counts() {
    for n in 1usize..5000 {
        let float = ((n as f64).log10().floor() as usize) + 1;
        assert_eq!(line_number_width(n), float);
    }
}

#[test]
fn line_colors_follow_spans_on_the_line() {
    // Line "let x" at bytes 10..15, chars at bytes 10..14, end at 15.
    let offsets = vec![10, 11, 12, 13, 14, 15];
    let spans = vec![
        ColorSpan { start: 10, end: 13, color: Color::Red },
        ColorSpan { start: 14, end: 15, color: Color::Blue },
        ColorSpan { start: 0, end: 5, color: Color::Green },
    ];
    let colors = line_char_colors(5, &offsets, 10, &spans, Color::White);
    assert_eq!(colors, vec![Color::Red, Color::Red, Color::Red, Color::White, Color::Blue]);
}

#[test]
fn later_spans_win_and_no_spans_keep_default() {
    let offsets = vec![0, 1, 2];
    let spans = vec![
        ColorSpan { start: 0, end: 2, color: Color::Red },
        ColorSpan { start: 1, end: 2, color: Color::Cyan },
    ];
    assert_eq!(line_char_colors(2, &offsets, 0, &spans, Color::Gray), vec![Color::Red, Color::Cyan]);
    assert_eq!(line_char_colors(2, &offsets, 0, &vec![], Color::Gray), vec![Color::Gray, Color::Gray]);
    assert_eq!(line_char_colors(0, &vec![], 0, &vec![], Color::Gray), vec![]);
}

#[test]
fn chars_without_offsets_keep_default() {
    let offsets = vec![0, 1];
    let spans = vec![ColorSpan { start: 0, end: 10, color: Color::Red }];
    assert_eq!(line_char_colors(3, &offsets, 0, &spans, Color::Gray), vec![Color::Red, Color::Gray, Color::Gray]);
}

#[test]
fn style_runs_group_alike_cells() {
    let plain = Cell::default();
    let red = Cell { fg: Some(Color::Red), ..Cell::default() };
    let default_red = Cell { c: 'x', ..Cell::default() };
    let bold = Cell { bold: true, ..Cell::default() };
    let row = vec![plain, default_red, red, red, bold, plain];
    assert_eq!(style_runs(&row, 6, Color::White, Color::Black), vec![(0, 2), (2, 4), (4, 5), (5, 6)]);
    // A cell's missing color stands for the theme's: red text on a red theme looks alike.
    assert_eq!(style_runs(&row, 4, Color::Red, Color::Black), vec![(0, 4)]);
    assert_eq!(style_runs(&row, 0, Color::Red, Color::Black), vec![]);
}

#[test]
fn tree_row_prefixes() {
    assert_eq!(tree_row_prefix(0, false, false), "  ");
    assert_eq!(tree_row_prefix(1, true, false), "  > ");
    assert_eq!(tree_row_prefix(2, true, true), "    v ");
}

#[test]
fn decimal_numerals() {
    for n in [0usize, 7, 10, 99, 100, 123456789, usize::MAX] {
        let mut s = String::from("#");
        push_decimal(&mut s, n);
        assert_eq!(s, format!("#{n}"));
    }
}
