use mewtui::editor::highlight::{
    highlight_color, language_for_extension, spans_from_steps, ColorSpan, Grammar, HighlightStep, SyntaxHighlighter,
};
use mewtui::theme::theme_at;

#[test]
fn extensions_select_grammars() {
    assert_eq!(language_for_extension("rs"), Some(Grammar::Rust));
    for e in ["js", "jsx", "mjs", "cjs", "ts", "tsx"] {
        assert_eq!(language_for_extension(e), Some(Grammar::JavaScript));
    }
    assert_eq!(language_for_extension("py"), Some(Grammar::Python));
    assert_eq!(language_for_extension("json"), Some(Grammar::Json));
    assert_eq!(language_for_extension("toml"), Some(Grammar::Toml));
    assert_eq!(language_for_extension("go"), Some(Grammar::Go));
    assert_eq!(language_for_extension("RS"), None);
    assert_eq!(language_for_extension("md"), None);
    assert_eq!(language_for_extension(""), None);
}

#[test]
fn highlight_classes_map_to_theme_colors() {
    let t = theme_at(0);
    assert_eq!(highlight_color(0, &t), t.syntax_keyword);
    assert_eq!(highlight_color(2, &t), t.syntax_function);
    assert_eq!(highlight_color(4, &t), t.syntax_string);
    assert_eq!(highlight_color(5, &t), t.syntax_comment);
    assert_eq!(highlight_color(7, &t), t.syntax_keyword);
    assert_eq!(highlight_color(10, &t), t.accent);
    assert_eq!(highlight_color(14, &t), t.fg);
    assert_eq!(highlight_color(19, &t), t.syntax_function);
    assert_eq!(highlight_color(20, &t), t.syntax_string);
    assert_eq!(highlight_color(21, &t), t.syntax_comment);
    assert_eq!(highlight_color(22, &t), t.accent);
    assert_eq!(highlight_color(23, &t), t.syntax_string);
    assert_eq!(highlight_color(24, &t), t.fg);
}

#[test]
fn steps_color_source_runs_by_innermost_class() {
    let t = theme_at(0);
    let steps = vec![
        HighlightStep::Source { start: 0, end: 3 },
        HighlightStep::Start(0),
        HighlightStep::Source { start: 3, end: 5 },
        HighlightStep::Start(3),
        HighlightStep::Source { start: 5, end: 9 },
        HighlightStep::End,
        HighlightStep::Source { start: 9, end: 10 },
        HighlightStep::End,
        HighlightStep::End,
        HighlightStep::Source { start: 10, end: 12 },
    ];
    assert_eq!(
        spans_from_steps(&steps, &t),
        vec![
            ColorSpan { start: 3, end: 5, color: t.syntax_keyword },
            ColorSpan { start: 5, end: 9, color: t.syntax_string },
            ColorSpan { start: 9, end: 10, color: t.syntax_keyword },
        ]
    );
}

#[test]
fn highlighter_colors_rust_keywords() {
    let t = theme_at(0);
    let mut h = SyntaxHighlighter::new().ok().expect("grammars load");
    let spans = h.highlight("fn main() { let s = \"hi\"; }", "rs", &t);
    assert!(spans.iter().any(|s| s.start == 0 && s.end == 2 && s.color == t.syntax_keyword));
    assert!(spans.iter().any(|s| s.color == t.syntax_string));
    assert!(spans.iter().all(|s| s.start < s.end && s.end <= 27));
}

#[test]
fn highlighter_handles_each_grammar() {
    let t = theme_at(0);
    let mut h = SyntaxHighlighter::new().ok().expect("grammars load");
    for (src, ext) in [
        ("const x = 1; // c", "js"),
        ("def f():\n    return 'a'", "py"),
        ("{\"a\": 1}", "json"),
        ("a = \"b\"", "toml"),
        ("package main", "go"),
    ] {
        assert!(!h.highlight(src, ext, &t).is_empty(), "{ext}");
    }
    assert!(h.highlight("fn main() {}", "txt", &t).is_empty());
}
