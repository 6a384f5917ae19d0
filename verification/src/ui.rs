//! What the panes show, computed from the state: the width of the line
//! number gutter, the colors of an editor line, the runs of equally styled
//! cells of a shell row.
use vstd::prelude::*;
use crate::editor::highlight::ColorSpan;
use crate::shell::screen::Cell;
use crate::theme::Color;
use crate::shell::cwd::{chars_of, push_char};

verus! {

/// The number of decimal digits of `n`.
pub open spec fn decimal_digits(n: nat) -> nat
    decreases n,
{
    if n < 10 {
        1
    } else {
        1 + decimal_digits(n / 10)
    }
}

/// The width of the line number gutter: the number of digits of the
/// number of lines (1 for none).
pub fn line_number_width(total_lines: usize) -> (w: usize)
    ensures
        w == decimal_digits(total_lines as nat),
{
    proof {
        lemma_digits_below(total_lines as nat, 20);
    }
    let mut n = total_lines;
    let mut w: usize = 1;
    while n >= 10
        invariant
            w + decimal_digits(n as nat) == decimal_digits(total_lines as nat) + 1,
            decimal_digits(total_lines as nat) <= 20,
            decimal_digits(n as nat) >= 1,
        decreases n,
    {
        n = n / 10;
        w = w + 1;
    }
    w
}

pub open spec fn pow10(k: nat) -> nat
    decreases k,
{
    if k == 0 {
        1
    } else {
        10 * pow10((k - 1) as nat)
    }
}

/// A number below `10^k` has at most `k` digits (`k >= 1`); a `usize` has
/// at most 20.
proof fn lemma_digits_below(n: nat, k: nat)
    requires
        k >= 1,
        n < pow10(k) || (k == 20 && n <= usize::MAX),
    ensures
        1 <= decimal_digits(n) <= k,
    decreases k,
{
    if k == 20 {
        reveal_with_fuel(pow10, 21);
        assert(pow10(20) == 100000000000000000000);
    }
    if n >= 10 {
        assert(k >= 2) by {
            if k == 1 {
                reveal_with_fuel(pow10, 2);
            }
        }
        assert(n / 10 < pow10((k - 1) as nat));
        lemma_digits_below(n / 10, (k - 1) as nat);
    }
}

/// The color of a char at byte `byte` of a line spanning bytes `lo..hi`:
/// that of the last span among `spans` that overlaps the line and covers
/// the byte, or `default`.
pub open spec fn span_color(spans: Seq<ColorSpan>, byte: int, lo: int, hi: int, default: Color) -> Color
    decreases spans.len(),
{
    if spans.len() == 0 {
        default
    } else {
        let s = spans.last();
        if !(s.end <= lo || s.start >= hi) && s.start <= byte < s.end {
            s.color
        } else {
            span_color(spans.drop_last(), byte, lo, hi, default)
        }
    }
}

/// The colors of the `n_chars` chars of an editor line. `byte_offsets`
/// holds the byte offset of each char and, last, the offset where the line
/// ends; the line starts at byte `line_byte_start`. A char whose offset is
/// missing keeps `default`.
pub fn line_char_colors(
    n_chars: usize,
    byte_offsets: &Vec<usize>,
    line_byte_start: usize,
    spans: &Vec<ColorSpan>,
    default: Color,
) -> (colors: Vec<Color>)
    ensures
        colors.len() == n_chars,
        forall|ci: int|
            0 <= ci < n_chars ==> #[trigger] colors@[ci] == if spans.len() > 0 && ci + 1
                < byte_offsets.len() {
                span_color(
                    spans@,
                    byte_offsets@[ci] as int,
                    line_byte_start as int,
                    byte_offsets@[byte_offsets.len() - 1] as int,
                    default,
                )
            } else {
                default
            },
{
    let mut char_colors: Vec<Color> = Vec::new();
    for k in 0..n_chars
        invariant
            char_colors@ == Seq::new(k as nat, |i: int| default),
    {
        char_colors.push(default);
        assert(char_colors@ =~= Seq::new((k + 1) as nat, |i: int| default));
    }
    if spans.len() == 0 {
        return char_colors;
    }
    // The byte where the line ends
    let line_byte_end = if byte_offsets.len() > 0 {
        byte_offsets[byte_offsets.len() - 1]
    } else {
        line_byte_start
    };
    for i in 0..spans.len()
        invariant
            byte_offsets.len() > 0 ==> line_byte_end == byte_offsets@[byte_offsets.len() - 1],
            char_colors.len() == n_chars,
            forall|ci: int|
                0 <= ci < n_chars ==> #[trigger] char_colors@[ci] == if ci + 1 < byte_offsets.len() {
                    span_color(
                        spans@.take(i as int),
                        byte_offsets@[ci] as int,
                        line_byte_start as int,
                        line_byte_end as int,
                        default,
                    )
                } else {
                    default
                },
    {
        let span = spans[i];
        proof {
            assert(spans@.take(i + 1).drop_last() =~= spans@.take(i as int));
            assert(spans@.take(i + 1).last() == span);
        }
        // Spans that don't overlap this line are skipped; others color the
        // characters they cover
        let overlaps = !(span.end <= line_byte_start || span.start >= line_byte_end);
        for ci in 0..n_chars
            invariant
                char_colors.len() == n_chars,
                overlaps == !(span.end <= line_byte_start || span.start >= line_byte_end),
                i < spans.len(),
                spans@.take(i + 1).last() == span,
                spans@.take(i + 1).drop_last() == spans@.take(i as int),
                forall|cj: int|
                    0 <= cj < n_chars ==> #[trigger] char_colors@[cj] == if cj + 1 < byte_offsets.len() {
                        span_color(
                            if cj < ci { spans@.take(i + 1) } else { spans@.take(i as int) },
                            byte_offsets@[cj] as int,
                            line_byte_start as int,
                            line_byte_end as int,
                            default,
                        )
                    } else {
                        default
                    },
        {
            let ghost prev = char_colors@;
            if overlaps && ci + 1 < byte_offsets.len() {
                let char_byte = byte_offsets[ci];
                if char_byte >= span.start && char_byte < span.end {
                    char_colors.set(ci, span.color);
                }
            }
            proof {
                assert forall|cj: int| 0 <= cj < n_chars implies #[trigger] char_colors@[cj] == if cj + 1
                    < byte_offsets.len() {
                    span_color(
                        if cj < ci + 1 { spans@.take(i + 1) } else { spans@.take(i as int) },
                        byte_offsets@[cj] as int,
                        line_byte_start as int,
                        line_byte_end as int,
                        default,
                    )
                } else {
                    default
                } by {
                    if cj != ci {
                        assert(char_colors@[cj] == prev[cj]);
                    } else if cj + 1 < byte_offsets.len() {
                        let b = byte_offsets@[cj] as int;
                        assert(prev[cj] == span_color(
                            spans@.take(i as int),
                            b,
                            line_byte_start as int,
                            line_byte_end as int,
                            default,
                        ));
                        assert(span_color(spans@.take(i + 1), b, line_byte_start as int, line_byte_end as int, default)
                            == if overlaps && span.start <= b < span.end {
                            span.color
                        } else {
                            span_color(spans@.take(i as int), b, line_byte_start as int, line_byte_end as int, default)
                        });
                    } else {
                        assert(prev[cj] == default);
                    }
                }
            }
        }
    }
    assert(spans@.take(spans.len() as int) =~= spans@);
    char_colors
}

/// The colors a cell is drawn with (a missing one standing for the
/// theme's `fg` / `bg`) and its weight.
pub open spec fn look(c: Cell, fg: Color, bg: Color) -> (Color, Color, bool) {
    (
        match c.fg {
            Some(x) => x,
            None => fg,
        },
        match c.bg {
            Some(x) => x,
            None => bg,
        },
        c.bold,
    )
}

/// Where the run of cells that look like `row[start]` ends, looking from
/// `k` on, within the first `width` cells.
pub open spec fn run_end_at(row: Seq<Cell>, width: int, start: int, k: int, fg: Color, bg: Color) -> int
    decreases width - k,
{
    if k >= width || look(row[k], fg, bg) != look(row[start], fg, bg) {
        k
    } else {
        run_end_at(row, width, start, k + 1, fg, bg)
    }
}

pub proof fn lemma_run_end(row: Seq<Cell>, width: int, start: int, k: int, fg: Color, bg: Color)
    ensures
        run_end_at(row, width, start, k, fg, bg) >= k,
        k <= width ==> run_end_at(row, width, start, k, fg, bg) <= width,
    decreases width - k,
{
    if !(k >= width || look(row[k], fg, bg) != look(row[start], fg, bg)) {
        lemma_run_end(row, width, start, k + 1, fg, bg);
    }
}

/// The runs of alike cells that the first `width` cells of `row`, from
/// `start` on, fall into: each a `(start, end)` pair.
pub open spec fn runs_from(row: Seq<Cell>, width: int, start: int, fg: Color, bg: Color) -> Seq<(int, int)>
    decreases width - start,
{
    if start >= width {
        Seq::empty()
    } else {
        let e = run_end_at(row, width, start, start + 1, fg, bg);
        proof {
            lemma_run_end(row, width, start, start + 1, fg, bg);
        }
        seq![(start, e)] + runs_from(row, width, e, fg, bg)
    }
}

fn cell_look(c: &Cell, fg: Color, bg: Color) -> (r: (Color, Color, bool))
    ensures
        r == look(*c, fg, bg),
{
    let f = match c.fg {
        Some(x) => x,
        None => fg,
    };
    let b = match c.bg {
        Some(x) => x,
        None => bg,
    };
    (f, b, c.bold)
}

/// The runs of alike cells among the first `width` cells of a shell row,
/// each drawn as one styled span.
pub fn style_runs(row: &Vec<Cell>, width: usize, fg: Color, bg: Color) -> (runs: Vec<(usize, usize)>)
    requires
        width <= row.len(),
    ensures
        runs@.len() == runs_from(row@, width as int, 0, fg, bg).len(),
        forall|i: int|
            0 <= i < runs@.len() ==> (#[trigger] runs@[i]).0 == runs_from(row@, width as int, 0, fg, bg)[i].0
                && runs@[i].1 == runs_from(row@, width as int, 0, fg, bg)[i].1,
{
    let ghost all = runs_from(row@, width as int, 0, fg, bg);
    let mut runs: Vec<(usize, usize)> = Vec::new();
    let mut run_start: usize = 0;
    while run_start < width
        invariant
            width <= row.len(),
            run_start <= width,
            all == runs_from(row@, width as int, 0, fg, bg),
            all == Seq::new(runs@.len(), |i: int| (runs@[i].0 as int, runs@[i].1 as int)) + runs_from(
                row@,
                width as int,
                run_start as int,
                fg,
                bg,
            ),
        decreases width - run_start,
    {
        let first = cell_look(&row[run_start], fg, bg);
        // Collect run of same style
        let mut run_end = run_start + 1;
        while run_end < width
            invariant
                width <= row.len(),
                run_start < run_end <= width,
                first == look(row@[run_start as int], fg, bg),
                run_end_at(row@, width as int, run_start as int, run_start + 1, fg, bg) == run_end_at(
                    row@,
                    width as int,
                    run_start as int,
                    run_end as int,
                    fg,
                    bg,
                ),
            ensures
                run_start < run_end <= width,
                run_end_at(row@, width as int, run_start as int, run_start + 1, fg, bg) == run_end,
            decreases width - run_end,
        {
            let next = cell_look(&row[run_end], fg, bg);
            if next.0 != first.0 || next.1 != first.1 || next.2 != first.2 {
                break;
            }
            run_end += 1;
        }
        let ghost before = runs@;
        runs.push((run_start, run_end));
        proof {
            lemma_run_end(row@, width as int, run_start as int, run_start + 1, fg, bg);
            assert(Seq::new(runs@.len(), |i: int| (runs@[i].0 as int, runs@[i].1 as int)) =~= Seq::new(
                before.len(),
                |i: int| (before[i].0 as int, before[i].1 as int),
            ).push((run_start as int, run_end as int)));
        }
        run_start = run_end;
    }
    proof {
        assert(all =~= Seq::new(runs@.len(), |i: int| (runs@[i].0 as int, runs@[i].1 as int)));
    }
    runs
}

/// The decimal digit `d` (below 10) as a char.
pub open spec fn digit_char(d: nat) -> char {
    ((48 + d) as u8) as char
}

/// The decimal numeral of `n`, most significant digit first.
pub open spec fn decimal_chars(n: nat) -> Seq<char>
    decreases n,
{
    if n < 10 {
        seq![digit_char(n)]
    } else {
        decimal_chars(n / 10).push(digit_char(n % 10))
    }
}

/// `n` spaces.
pub open spec fn spaces(n: int) -> Seq<char> {
    Seq::new(if n > 0 { n as nat } else { 0 }, |i: int| ' ')
}

/// Appends the decimal numeral of `n` to `s`.
pub fn push_decimal(s: &mut String, n: usize)
    ensures
        final(s)@ == old(s)@ + decimal_chars(n as nat),
    decreases n,
{
    if n >= 10 {
        push_decimal(s, n / 10);
    }
    let d = (n % 10) as u8;
    let ghost before = s@;
    push_char(s, (48u8 + d) as char);
    proof {
        if n >= 10 {
            assert(decimal_chars(n as nat) == decimal_chars((n / 10) as nat).push(digit_char((n % 10) as nat)));
        }
        assert(s@ =~= old(s)@ + decimal_chars(n as nat));
    }
}

/// Appends the chars of `t` to `s`.
pub fn push_text(s: &mut String, t: &str)
    ensures
        final(s)@ == old(s)@ + t@,
{
    let cs = chars_of(t);
    let ghost start = s@;
    for i in 0..cs.len()
        invariant
            cs@ == t@,
            s@ == start + cs@.take(i as int),
            start == old(s)@,
    {
        push_char(s, cs[i]);
        assert(s@ =~= start + cs@.take(i + 1));
    }
    assert(cs@.take(cs.len() as int) =~= cs@);
}

/// Appends `n` spaces to `s`.
pub fn push_spaces(s: &mut String, n: usize)
    ensures
        final(s)@ == old(s)@ + spaces(n as int),
{
    let ghost start = s@;
    for i in 0..n
        invariant
            s@ == start + spaces(i as int),
            start == old(s)@,
    {
        push_char(s, ' ');
        assert(s@ =~= start + spaces(i + 1));
    }
}

/// What a file-tree row shows before the entry's name: two spaces per
/// level of depth, then `v ` for an expanded directory, `> ` for a closed
/// one and two spaces for a file.
pub open spec fn tree_row_prefix_text(depth: int, is_dir: bool, expanded: bool) -> Seq<char> {
    spaces(2 * depth) + if is_dir {
        if expanded {
            "v "@
        } else {
            "> "@
        }
    } else {
        "  "@
    }
}

/// The indent and icon of a file-tree row.
pub fn tree_row_prefix(depth: usize, is_dir: bool, expanded: bool) -> (s: String)
    ensures
        s@ == tree_row_prefix_text(depth as int, is_dir, expanded),
{
    let mut s = String::new();
    for i in 0..depth
        invariant
            s@ == spaces(2 * i),
    {
        push_char(&mut s, ' ');
        push_char(&mut s, ' ');
        assert(s@ =~= spaces(2 * (i + 1)));
    }
    if is_dir {
        if expanded {
            push_text(&mut s, "v ");
        } else {
            push_text(&mut s, "> ");
        }
    } else {
        push_text(&mut s, "  ");
    }
    s
}

} // verus!
