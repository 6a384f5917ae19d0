//! Syntax highlighting: which grammar a file extension selects, the color
//! of each highlight class, and the colored spans that the highlighter's
//! events describe.
use vstd::prelude::*;
use tree_sitter_highlight::{Highlight, HighlightConfiguration, HighlightEvent, Highlighter};
use crate::theme::{Color, Theme};
use crate::shell::cwd::chars_of;
use vstd::utf8::encode_utf8;

verus! {

#[verifier::external_type_specification]
#[verifier::external_body]
pub struct ExHighlighter(Highlighter);

#[verifier::external_type_specification]
#[verifier::external_body]
pub struct ExHighlightConfiguration(HighlightConfiguration);

/// The grammars that the editor highlights with.
#[derive(Clone, Copy, PartialEq, Eq, Structural, Debug)]
pub enum Grammar {
    Rust,
    JavaScript,
    Python,
    Json,
    Toml,
    Go,
}

/// The grammar for files with extension `e`.
pub open spec fn language_of(e: Seq<char>) -> Option<Grammar> {
    if e == seq!['r', 's'] {
        Some(Grammar::Rust)
    } else if e == seq!['j', 's'] || e == seq!['j', 's', 'x'] || e == seq!['m', 'j', 's'] || e
        == seq!['c', 'j', 's'] || e == seq!['t', 's'] || e == seq!['t', 's', 'x'] {
        Some(Grammar::JavaScript)
    } else if e == seq!['p', 'y'] {
        Some(Grammar::Python)
    } else if e == seq!['j', 's', 'o', 'n'] {
        Some(Grammar::Json)
    } else if e == seq!['t', 'o', 'm', 'l'] {
        Some(Grammar::Toml)
    } else if e == seq!['g', 'o'] {
        Some(Grammar::Go)
    } else {
        None
    }
}

fn same_chars(a: &Vec<char>, b: &Vec<char>) -> (r: bool)
    ensures
        r == (a@ == b@),
{
    if a.len() != b.len() {
        return false;
    }
    for i in 0..a.len()
        invariant
            a.len() == b.len(),
            forall|j: int| 0 <= j < i ==> a@[j] == b@[j],
    {
        if a[i] != b[i] {
            return false;
        }
    }
    assert(a@ =~= b@);
    true
}

/// The grammar that a file extension selects: `rs`; `js`, `jsx`, `mjs`,
/// `cjs`, `ts`, `tsx` (all read with the JavaScript grammar); `py`;
/// `json`; `toml`; `go`.
pub fn language_for_extension(extension: &str) -> (l: Option<Grammar>)
    ensures
        l == language_of(extension@),
{
    let e = chars_of(extension);
    let rs = vec!['r', 's'];
    assert(rs@ =~= seq!['r', 's']);
    if same_chars(&e, &rs) {
        return Some(Grammar::Rust);
    }
    let js = vec!['j', 's'];
    let jsx = vec!['j', 's', 'x'];
    let mjs = vec!['m', 'j', 's'];
    let cjs = vec!['c', 'j', 's'];
    let ts = vec!['t', 's'];
    let tsx = vec!['t', 's', 'x'];
    assert(js@ =~= seq!['j', 's']);
    assert(jsx@ =~= seq!['j', 's', 'x']);
    assert(mjs@ =~= seq!['m', 'j', 's']);
    assert(cjs@ =~= seq!['c', 'j', 's']);
    assert(ts@ =~= seq!['t', 's']);
    assert(tsx@ =~= seq!['t', 's', 'x']);
    if same_chars(&e, &js) || same_chars(&e, &jsx) || same_chars(&e, &mjs) || same_chars(&e, &cjs)
        || same_chars(&e, &ts) || same_chars(&e, &tsx) {
        return Some(Grammar::JavaScript);
    }
    let py = vec!['p', 'y'];
    let json = vec!['j', 's', 'o', 'n'];
    let toml = vec!['t', 'o', 'm', 'l'];
    let go = vec!['g', 'o'];
    assert(py@ =~= seq!['p', 'y']);
    assert(json@ =~= seq!['j', 's', 'o', 'n']);
    assert(toml@ =~= seq!['t', 'o', 'm', 'l']);
    assert(go@ =~= seq!['g', 'o']);
    if same_chars(&e, &py) {
        Some(Grammar::Python)
    } else if same_chars(&e, &json) {
        Some(Grammar::Json)
    } else if same_chars(&e, &toml) {
        Some(Grammar::Toml)
    } else if same_chars(&e, &go) {
        Some(Grammar::Go)
    } else {
        None
    }
}

/// The theme color of highlight class `idx` (keyword, function,
/// function.builtin, string, string.escape, comment, type, type.builtin,
/// constant, constant.builtin, number, operator, punctuation,
/// punctuation.bracket, punctuation.delimiter, variable, variable.builtin,
/// variable.parameter, property, constructor, module, attribute, boolean,
/// escape).
pub open spec fn class_color(idx: int, theme: Theme) -> Color {
    if idx == 0 {
        theme.syntax_keyword
    } else if idx == 1 || idx == 2 {
        theme.syntax_function
    } else if idx == 3 || idx == 4 {
        theme.syntax_string
    } else if idx == 5 {
        theme.syntax_comment
    } else if idx == 6 || idx == 7 {
        theme.syntax_keyword
    } else if 8 <= idx <= 10 {
        theme.accent
    } else if 11 <= idx <= 17 {
        theme.fg
    } else if idx == 18 || idx == 19 {
        theme.syntax_function
    } else if idx == 20 {
        theme.syntax_string
    } else if idx == 21 {
        theme.syntax_comment
    } else if idx == 22 {
        theme.accent
    } else if idx == 23 {
        theme.syntax_string
    } else {
        theme.fg
    }
}

/// Map highlight index to a theme color.
pub fn highlight_color(idx: usize, theme: &Theme) -> (c: Color)
    ensures
        c == class_color(idx as int, *theme),
{
    if idx == 0 {
        theme.syntax_keyword  // keyword
    } else if idx == 1 || idx == 2 {
        theme.syntax_function  // function, function.builtin
    } else if idx == 3 || idx == 4 {
        theme.syntax_string  // string, string.escape
    } else if idx == 5 {
        theme.syntax_comment  // comment
    } else if idx == 6 || idx == 7 {
        theme.syntax_keyword  // type, type.builtin (use keyword color)
    } else if 8 <= idx && idx <= 10 {
        theme.accent  // constant, constant.builtin, number
    } else if 11 <= idx && idx <= 17 {
        theme.fg  // operator, punctuation, variable
    } else if idx == 18 || idx == 19 {
        theme.syntax_function  // property, constructor
    } else if idx == 20 {
        theme.syntax_string  // module
    } else if idx == 21 {
        theme.syntax_comment  // attribute
    } else if idx == 22 {
        theme.accent  // boolean
    } else if idx == 23 {
        theme.syntax_string  // escape
    } else {
        theme.fg
    }
}

/// A colored span in the source text (byte offsets).
#[derive(Clone, Copy, PartialEq, Eq, Structural, Debug)]
pub struct ColorSpan {
    pub start: usize,
    pub end: usize,
    pub color: Color,
}

/// One step of the highlighter's walk through the source: a run of source
/// bytes, the start of a highlight class, or the end of the innermost one.
#[derive(Clone, Copy, PartialEq, Eq, Structural, Debug)]
pub enum HighlightStep {
    Source { start: usize, end: usize },
    Start(usize),
    End,
}

/// The spans that `steps` color and the stack of open classes' colors
/// after them: each source run takes the color of the innermost open class
/// and is left out when no class is open.
pub open spec fn span_walk(steps: Seq<HighlightStep>, theme: Theme) -> (Seq<ColorSpan>, Seq<Color>)
    decreases steps.len(),
{
    if steps.len() == 0 {
        (Seq::empty(), Seq::empty())
    } else {
        let (spans, stack) = span_walk(steps.drop_last(), theme);
        match steps.last() {
            HighlightStep::Source { start, end } => if stack.len() > 0 {
                (spans.push(ColorSpan { start: start, end: end, color: stack.last() }), stack)
            } else {
                (spans, stack)
            },
            HighlightStep::Start(idx) => (spans, stack.push(class_color(idx as int, theme))),
            HighlightStep::End => (spans, if stack.len() > 0 {
                stack.drop_last()
            } else {
                stack
            }),
        }
    }
}

/// The colored spans that the highlighter's steps describe.
pub fn spans_from_steps(steps: &Vec<HighlightStep>, theme: &Theme) -> (spans: Vec<ColorSpan>)
    ensures
        spans@ == span_walk(steps@, *theme).0,
{
    let mut spans: Vec<ColorSpan> = Vec::new();
    let mut highlight_stack: Vec<Color> = Vec::new();
    for i in 0..steps.len()
        invariant
            (spans@, highlight_stack@) == span_walk(steps@.take(i as int), *theme),
    {
        proof {
            assert(steps@.take(i + 1).drop_last() =~= steps@.take(i as int));
            assert(steps@.take(i + 1).last() == steps@[i as int]);
        }
        match steps[i] {
            HighlightStep::Source { start, end } => {
                if highlight_stack.len() > 0 {
                    let color = highlight_stack[highlight_stack.len() - 1];
                    spans.push(ColorSpan { start, end, color });
                }
            },
            HighlightStep::Start(idx) => {
                let color = highlight_color(idx, theme);
                highlight_stack.push(color);
            },
            HighlightStep::End => {
                highlight_stack.pop();
            },
        }
    }
    assert(steps@.take(steps.len() as int) =~= steps@);
    spans
}

/// Whether the highlight query of grammar `g` compiles against the grammar,
/// as `HighlightConfiguration::new` finds it.
pub uninterp spec fn query_compiles(g: Grammar) -> bool;

/// The grammar (and its crate's highlight query) that a configuration was
/// made from.
pub uninterp spec fn config_grammar(c: HighlightConfiguration) -> Grammar;

/// The highlight names that a configuration was last configured to
/// recognize (none when just made).
pub uninterp spec fn config_names(c: HighlightConfiguration) -> Seq<Seq<char>>;

/// What the highlighter reports for `source` with the configuration made
/// from grammar `g` and configured to recognize `names`: the events up to
/// the first error, as steps, or `None` where highlighting fails to start.
pub uninterp spec fn highlight_steps(g: Grammar, names: Seq<Seq<char>>, source: Seq<u8>) -> Option<
    Seq<HighlightStep>,
>;

/// `Highlighter::highlight` of the `tree-sitter-highlight` crate, with the
/// default encoding, no cancellation flag and no injected languages: the
/// events it reports for `source`, each turned into a step, up to the first
/// error; `None` where it fails to start. The events come from an iterator
/// whose type the crate leaves unnamed, so it is drained here. The result
/// is named: it depends on the configuration's grammar and query, the names
/// it recognizes, and the source.
#[verifier::external_body]
fn run_highlighter(highlighter: &mut Highlighter, config: &HighlightConfiguration, source: &[u8]) -> (r: Option<
    Vec<HighlightStep>,
>)
    ensures
        match r {
            Some(v) => highlight_steps(config_grammar(*config), config_names(*config), source@) == Some(v@),
            None => highlight_steps(config_grammar(*config), config_names(*config), source@) is None,
        },
{
    let events = highlighter.highlight(config, source, None, None, |_| None).ok()?;
    let mut steps = Vec::new();
    for event in events {
        let Ok(event) = event else { break };
        steps.push(match event {
            HighlightEvent::Source { start, end } => HighlightStep::Source { start, end },
            HighlightEvent::HighlightStart(Highlight(idx)) => HighlightStep::Start(idx),
            HighlightEvent::HighlightEnd => HighlightStep::End,
        });
    }
    Some(steps)
}

/// `Highlighter::new`: a highlighter with a fresh parser.
#[verifier::external_body]
fn highlighter_new() -> Highlighter {
    Highlighter::new()
}

/// `HighlightConfiguration::new` on the grammar of `tree-sitter-rust` and its
/// highlight query, with no injection and no locals query: `None` where the
/// query does not compile. A new configuration recognizes no names yet.
#[verifier::external_body]
fn rust_config() -> (c: Option<HighlightConfiguration>)
    ensures
        c is Some <==> query_compiles(Grammar::Rust),
        c matches Some(x) ==> config_grammar(x) == Grammar::Rust && config_names(x) == Seq::<Seq<char>>::empty(),
{
    HighlightConfiguration::new(tree_sitter::Language::from(tree_sitter_rust::LANGUAGE), "rust", tree_sitter_rust::HIGHLIGHTS_QUERY, "", "").ok()
}

/// `HighlightConfiguration::new` on the grammar of `tree-sitter-javascript` and its
/// highlight query, with no injection and no locals query: `None` where the
/// query does not compile. A new configuration recognizes no names yet.
#[verifier::external_body]
fn javascript_config() -> (c: Option<HighlightConfiguration>)
    ensures
        c is Some <==> query_compiles(Grammar::JavaScript),
        c matches Some(x) ==> config_grammar(x) == Grammar::JavaScript && config_names(x) == Seq::<Seq<char>>::empty(),
{
    HighlightConfiguration::new(tree_sitter::Language::from(tree_sitter_javascript::LANGUAGE), "javascript", tree_sitter_javascript::HIGHLIGHT_QUERY, "", "").ok()
}

/// `HighlightConfiguration::new` on the grammar of `tree-sitter-python` and its
/// highlight query, with no injection and no locals query: `None` where the
/// query does not compile. A new configuration recognizes no names yet.
#[verifier::external_body]
fn python_config() -> (c: Option<HighlightConfiguration>)
    ensures
        c is Some <==> query_compiles(Grammar::Python),
        c matches Some(x) ==> config_grammar(x) == Grammar::Python && config_names(x) == Seq::<Seq<char>>::empty(),
{
    HighlightConfiguration::new(tree_sitter::Language::from(tree_sitter_python::LANGUAGE), "python", tree_sitter_python::HIGHLIGHTS_QUERY, "", "").ok()
}

/// `HighlightConfiguration::new` on the grammar of `tree-sitter-json` and its
/// highlight query, with no injection and no locals query: `None` where the
/// query does not compile. A new configuration recognizes no names yet.
#[verifier::external_body]
fn json_config() -> (c: Option<HighlightConfiguration>)
    ensures
        c is Some <==> query_compiles(Grammar::Json),
        c matches Some(x) ==> config_grammar(x) == Grammar::Json && config_names(x) == Seq::<Seq<char>>::empty(),
{
    HighlightConfiguration::new(tree_sitter::Language::from(tree_sitter_json::LANGUAGE), "json", tree_sitter_json::HIGHLIGHTS_QUERY, "", "").ok()
}

/// `HighlightConfiguration::new` on the grammar of `tree-sitter-toml-ng` and its
/// highlight query, with no injection and no locals query: `None` where the
/// query does not compile. A new configuration recognizes no names yet.
#[verifier::external_body]
fn toml_config() -> (c: Option<HighlightConfiguration>)
    ensures
        c is Some <==> query_compiles(Grammar::Toml),
        c matches Some(x) ==> config_grammar(x) == Grammar::Toml && config_names(x) == Seq::<Seq<char>>::empty(),
{
    HighlightConfiguration::new(tree_sitter::Language::from(tree_sitter_toml_ng::LANGUAGE), "toml", tree_sitter_toml_ng::HIGHLIGHTS_QUERY, "", "").ok()
}

/// `HighlightConfiguration::new` on the grammar of `tree-sitter-go` and its
/// highlight query, with no injection and no locals query: `None` where the
/// query does not compile. A new configuration recognizes no names yet.
#[verifier::external_body]
fn go_config() -> (c: Option<HighlightConfiguration>)
    ensures
        c is Some <==> query_compiles(Grammar::Go),
        c matches Some(x) ==> config_grammar(x) == Grammar::Go && config_names(x) == Seq::<Seq<char>>::empty(),
{
    HighlightConfiguration::new(tree_sitter::Language::from(tree_sitter_go::LANGUAGE), "go", tree_sitter_go::HIGHLIGHTS_QUERY, "", "").ok()
}

/// `HighlightConfiguration::configure`: the configuration is to recognize
/// `names`, a highlight's index being that of its name there; its grammar
/// and query stay.
#[verifier::external_body]
fn configure(config: &mut HighlightConfiguration, names: &[&str])
    ensures
        config_grammar(*final(config)) == config_grammar(*old(config)),
        config_names(*final(config)) == names@.map_values(|n: &str| n@),
{
    config.configure(names)
}

/// The recognized highlight capture names; a name's index is its class.
pub open spec fn recognized_names() -> Seq<Seq<char>> {
    seq![
        "keyword"@,
        "function"@,
        "function.builtin"@,
        "string"@,
        "string.escape"@,
        "comment"@,
        "type"@,
        "type.builtin"@,
        "constant"@,
        "constant.builtin"@,
        "number"@,
        "operator"@,
        "punctuation"@,
        "punctuation.bracket"@,
        "punctuation.delimiter"@,
        "variable"@,
        "variable.builtin"@,
        "variable.parameter"@,
        "property"@,
        "constructor"@,
        "module"@,
        "attribute"@,
        "boolean"@,
        "escape"@,
    ]
}

/// The recognized highlight capture names, in order.
fn highlight_names() -> (names: Vec<&'static str>)
    ensures
        names@.map_values(|n: &str| n@) == recognized_names(),
{
    vec![
        "keyword",
        "function",
        "function.builtin",
        "string",
        "string.escape",
        "comment",
        "type",
        "type.builtin",
        "constant",
        "constant.builtin",
        "number",
        "operator",
        "punctuation",
        "punctuation.bracket",
        "punctuation.delimiter",
        "variable",
        "variable.builtin",
        "variable.parameter",
        "property",
        "constructor",
        "module",
        "attribute",
        "boolean",
        "escape",
    ]
}

/// The highlight configuration for `grammar`, configured to recognize
/// `names`; `None` where its query does not compile.
fn language_config(grammar: Grammar, names: &Vec<&'static str>) -> (r: Option<HighlightConfiguration>)
    ensures
        r is Some <==> query_compiles(grammar),
        r matches Some(c) ==> config_grammar(c) == grammar && config_names(c) == names@.map_values(
            |n: &str| n@,
        ),
{
    let made = match grammar {
        Grammar::Rust => rust_config(),
        Grammar::JavaScript => javascript_config(),
        Grammar::Python => python_config(),
        Grammar::Json => json_config(),
        Grammar::Toml => toml_config(),
        Grammar::Go => go_config(),
    };
    let mut config = made?;
    configure(&mut config, names.as_slice());
    Some(config)
}

/// The order in which the highlighter's grammars are set up.
pub open spec fn grammar_rank(g: Grammar) -> int {
    match g {
        Grammar::Rust => 0,
        Grammar::JavaScript => 1,
        Grammar::Python => 2,
        Grammar::Json => 3,
        Grammar::Toml => 4,
        Grammar::Go => 5,
    }
}

/// The spans that highlighting `source`, a file with extension
/// `extension`, gives in `theme`: none for an extension of no grammar;
/// otherwise those that the highlighter's steps for the source's UTF-8
/// bytes describe, with the grammar's configuration recognizing the
/// recognized names (none where highlighting fails to start).
pub open spec fn highlighted(extension: Seq<char>, source: Seq<char>, theme: Theme) -> Seq<ColorSpan> {
    match language_of(extension) {
        None => Seq::empty(),
        Some(g) => match highlight_steps(g, recognized_names(), encode_utf8(source)) {
            Some(steps) => span_walk(steps, theme).0,
            None => Seq::empty(),
        },
    }
}

/// The theme color of a highlight capture name: keywords and types in the
/// keyword color; functions, properties and constructors in the function
/// color; strings, escapes and modules in the string color; comments and
/// attributes in the comment color; constants, numbers and booleans in the
/// accent color; operators, punctuation and variables in the text color.
pub open spec fn name_color(name: Seq<char>, t: Theme) -> Color {
    if name == "keyword"@ || name == "type"@ || name == "type.builtin"@ {
        t.syntax_keyword
    } else if name == "function"@ || name == "function.builtin"@ || name == "property"@ || name
        == "constructor"@ {
        t.syntax_function
    } else if name == "string"@ || name == "string.escape"@ || name == "module"@ || name == "escape"@ {
        t.syntax_string
    } else if name == "comment"@ || name == "attribute"@ {
        t.syntax_comment
    } else if name == "constant"@ || name == "constant.builtin"@ || name == "number"@ || name
        == "boolean"@ {
        t.accent
    } else {
        t.fg
    }
}

/// Each highlight class is colored by its capture name: the class at
/// index `i` of the recognized names gets that name's color in every
/// theme, and a class past them gets the text color.
pub proof fn law_capture_colors(t: Theme)
    ensures
        forall|i: int| 0 <= i < recognized_names().len() ==> #[trigger] class_color(i, t) == name_color(
            recognized_names()[i],
            t,
        ),
        forall|i: int| i >= recognized_names().len() ==> #[trigger] class_color(i, t) == t.fg,
{
    assert(class_color(0, t) == name_color(recognized_names()[0], t)) by {
        reveal_strlit("keyword");
    }
    assert(class_color(1, t) == name_color(recognized_names()[1], t)) by {
        reveal_strlit("function");
        reveal_strlit("keyword");
        assert("function"@.len() != "keyword"@.len());
        reveal_strlit("type");
        assert("function"@.len() != "type"@.len());
        reveal_strlit("type.builtin");
        assert("function"@.len() != "type.builtin"@.len());
    }
    assert(class_color(2, t) == name_color(recognized_names()[2], t)) by {
        reveal_strlit("function.builtin");
        reveal_strlit("keyword");
        assert("function.builtin"@.len() != "keyword"@.len());
        reveal_strlit("type");
        assert("function.builtin"@.len() != "type"@.len());
        reveal_strlit("type.builtin");
        assert("function.builtin"@.len() != "type.builtin"@.len());
    }
    assert(class_color(3, t) == name_color(recognized_names()[3], t)) by {
        reveal_strlit("string");
        reveal_strlit("keyword");
        assert("string"@.len() != "keyword"@.len());
        reveal_strlit("type");
        assert("string"@.len() != "type"@.len());
        reveal_strlit("type.builtin");
        assert("string"@.len() != "type.builtin"@.len());
        reveal_strlit("function");
        assert("string"@.len() != "function"@.len());
        reveal_strlit("function.builtin");
        assert("string"@.len() != "function.builtin"@.len());
        reveal_strlit("property");
        assert("string"@.len() != "property"@.len());
        reveal_strlit("constructor");
        assert("string"@.len() != "constructor"@.len());
    }
    assert(class_color(4, t) == name_color(recognized_names()[4], t)) by {
        reveal_strlit("string.escape");
        reveal_strlit("keyword");
        assert("string.escape"@.len() != "keyword"@.len());
        reveal_strlit("type");
        assert("string.escape"@.len() != "type"@.len());
        reveal_strlit("type.builtin");
        assert("string.escape"@.len() != "type.builtin"@.len());
        reveal_strlit("function");
        assert("string.escape"@.len() != "function"@.len());
        reveal_strlit("function.builtin");
        assert("string.escape"@.len() != "function.builtin"@.len());
        reveal_strlit("property");
        assert("string.escape"@.len() != "property"@.len());
        reveal_strlit("constructor");
        assert("string.escape"@.len() != "constructor"@.len());
    }
    assert(class_color(5, t) == name_color(recognized_names()[5], t)) by {
        reveal_strlit("comment");
        reveal_strlit("keyword");
        assert("comment"@[0] != "keyword"@[0]);
        reveal_strlit("type");
        assert("comment"@.len() != "type"@.len());
        reveal_strlit("type.builtin");
        assert("comment"@.len() != "type.builtin"@.len());
        reveal_strlit("function");
        assert("comment"@.len() != "function"@.len());
        reveal_strlit("function.builtin");
        assert("comment"@.len() != "function.builtin"@.len());
        reveal_strlit("property");
        assert("comment"@.len() != "property"@.len());
        reveal_strlit("constructor");
        assert("comment"@.len() != "constructor"@.len());
        reveal_strlit("string");
        assert("comment"@.len() != "string"@.len());
        reveal_strlit("string.escape");
        assert("comment"@.len() != "string.escape"@.len());
        reveal_strlit("module");
        assert("comment"@.len() != "module"@.len());
        reveal_strlit("escape");
        assert("comment"@.len() != "escape"@.len());
    }
    assert(class_color(6, t) == name_color(recognized_names()[6], t)) by {
        reveal_strlit("type");
    }
    assert(class_color(7, t) == name_color(recognized_names()[7], t)) by {
        reveal_strlit("type.builtin");
    }
    assert(class_color(8, t) == name_color(recognized_names()[8], t)) by {
        reveal_strlit("constant");
        reveal_strlit("keyword");
        assert("constant"@.len() != "keyword"@.len());
        reveal_strlit("type");
        assert("constant"@.len() != "type"@.len());
        reveal_strlit("type.builtin");
        assert("constant"@.len() != "type.builtin"@.len());
        reveal_strlit("function");
        assert("constant"@[0] != "function"@[0]);
        reveal_strlit("function.builtin");
        assert("constant"@.len() != "function.builtin"@.len());
        reveal_strlit("property");
        assert("constant"@[0] != "property"@[0]);
        reveal_strlit("constructor");
        assert("constant"@.len() != "constructor"@.len());
        reveal_strlit("string");
        assert("constant"@.len() != "string"@.len());
        reveal_strlit("string.escape");
        assert("constant"@.len() != "string.escape"@.len());
        reveal_strlit("module");
        assert("constant"@.len() != "module"@.len());
        reveal_strlit("escape");
        assert("constant"@.len() != "escape"@.len());
        reveal_strlit("comment");
        assert("constant"@.len() != "comment"@.len());
        reveal_strlit("attribute");
        assert("constant"@.len() != "attribute"@.len());
    }
    assert(class_color(9, t) == name_color(recognized_names()[9], t)) by {
        reveal_strlit("constant.builtin");
        reveal_strlit("keyword");
        assert("constant.builtin"@.len() != "keyword"@.len());
        reveal_strlit("type");
        assert("constant.builtin"@.len() != "type"@.len());
        reveal_strlit("type.builtin");
        assert("constant.builtin"@.len() != "type.builtin"@.len());
        reveal_strlit("function");
        assert("constant.builtin"@.len() != "function"@.len());
        reveal_strlit("function.builtin");
        assert("constant.builtin"@[0] != "function.builtin"@[0]);
        reveal_strlit("property");
        assert("constant.builtin"@.len() != "property"@.len());
        reveal_strlit("constructor");
        assert("constant.builtin"@.len() != "constructor"@.len());
        reveal_strlit("string");
        assert("constant.builtin"@.len() != "string"@.len());
        reveal_strlit("string.escape");
        assert("constant.builtin"@.len() != "string.escape"@.len());
        reveal_strlit("module");
        assert("constant.builtin"@.len() != "module"@.len());
        reveal_strlit("escape");
        assert("constant.builtin"@.len() != "escape"@.len());
        reveal_strlit("comment");
        assert("constant.builtin"@.len() != "comment"@.len());
        reveal_strlit("attribute");
        assert("constant.builtin"@.len() != "attribute"@.len());
    }
    assert(class_color(10, t) == name_color(recognized_names()[10], t)) by {
        reveal_strlit("number");
        reveal_strlit("keyword");
        assert("number"@.len() != "keyword"@.len());
        reveal_strlit("type");
        assert("number"@.len() != "type"@.len());
        reveal_strlit("type.builtin");
        assert("number"@.len() != "type.builtin"@.len());
        reveal_strlit("function");
        assert("number"@.len() != "function"@.len());
        reveal_strlit("function.builtin");
        assert("number"@.len() != "function.builtin"@.len());
        reveal_strlit("property");
        assert("number"@.len() != "property"@.len());
        reveal_strlit("constructor");
        assert("number"@.len() != "constructor"@.len());
        reveal_strlit("string");
        assert("number"@[0] != "string"@[0]);
        reveal_strlit("string.escape");
        assert("number"@.len() != "string.escape"@.len());
        reveal_strlit("module");
        assert("number"@[0] != "module"@[0]);
        reveal_strlit("escape");
        assert("number"@[0] != "escape"@[0]);
        reveal_strlit("comment");
        assert("number"@.len() != "comment"@.len());
        reveal_strlit("attribute");
        assert("number"@.len() != "attribute"@.len());
    }
    assert(class_color(11, t) == name_color(recognized_names()[11], t)) by {
        reveal_strlit("operator");
        reveal_strlit("keyword");
        assert("operator"@.len() != "keyword"@.len());
        reveal_strlit("type");
        assert("operator"@.len() != "type"@.len());
        reveal_strlit("type.builtin");
        assert("operator"@.len() != "type.builtin"@.len());
        reveal_strlit("function");
        assert("operator"@[0] != "function"@[0]);
        reveal_strlit("function.builtin");
        assert("operator"@.len() != "function.builtin"@.len());
        reveal_strlit("property");
        assert("operator"@[0] != "property"@[0]);
        reveal_strlit("constructor");
        assert("operator"@.len() != "constructor"@.len());
        reveal_strlit("string");
        assert("operator"@.len() != "string"@.len());
        reveal_strlit("string.escape");
        assert("operator"@.len() != "string.escape"@.len());
        reveal_strlit("module");
        assert("operator"@.len() != "module"@.len());
        reveal_strlit("escape");
        assert("operator"@.len() != "escape"@.len());
        reveal_strlit("comment");
        assert("operator"@.len() != "comment"@.len());
        reveal_strlit("attribute");
        assert("operator"@.len() != "attribute"@.len());
        reveal_strlit("constant");
        assert("operator"@[0] != "constant"@[0]);
        reveal_strlit("constant.builtin");
        assert("operator"@.len() != "constant.builtin"@.len());
        reveal_strlit("number");
        assert("operator"@.len() != "number"@.len());
        reveal_strlit("boolean");
        assert("operator"@.len() != "boolean"@.len());
    }
    assert(class_color(12, t) == name_color(recognized_names()[12], t)) by {
        reveal_strlit("punctuation");
        reveal_strlit("keyword");
        assert("punctuation"@.len() != "keyword"@.len());
        reveal_strlit("type");
        assert("punctuation"@.len() != "type"@.len());
        reveal_strlit("type.builtin");
        assert("punctuation"@.len() != "type.builtin"@.len());
        reveal_strlit("function");
        assert("punctuation"@.len() != "function"@.len());
        reveal_strlit("function.builtin");
        assert("punctuation"@.len() != "function.builtin"@.len());
        reveal_strlit("property");
        assert("punctuation"@.len() != "property"@.len());
        reveal_strlit("constructor");
        assert("punctuation"@[0] != "constructor"@[0]);
        reveal_strlit("string");
        assert("punctuation"@.len() != "string"@.len());
        reveal_strlit("string.escape");
        assert("punctuation"@.len() != "string.escape"@.len());
        reveal_strlit("module");
        assert("punctuation"@.len() != "module"@.len());
        reveal_strlit("escape");
        assert("punctuation"@.len() != "escape"@.len());
        reveal_strlit("comment");
        assert("punctuation"@.len() != "comment"@.len());
        reveal_strlit("attribute");
        assert("punctuation"@.len() != "attribute"@.len());
        reveal_strlit("constant");
        assert("punctuation"@.len() != "constant"@.len());
        reveal_strlit("constant.builtin");
        assert("punctuation"@.len() != "constant.builtin"@.len());
        reveal_strlit("number");
        assert("punctuation"@.len() != "number"@.len());
        reveal_strlit("boolean");
        assert("punctuation"@.len() != "boolean"@.len());
    }
    assert(class_color(13, t) == name_color(recognized_names()[13], t)) by {
        reveal_strlit("punctuation.bracket");
        reveal_strlit("keyword");
        assert("punctuation.bracket"@.len() != "keyword"@.len());
        reveal_strlit("type");
        assert("punctuation.bracket"@.len() != "type"@.len());
        reveal_strlit("type.builtin");
        assert("punctuation.bracket"@.len() != "type.builtin"@.len());
        reveal_strlit("function");
        assert("punctuation.bracket"@.len() != "function"@.len());
        reveal_strlit("function.builtin");
        assert("punctuation.bracket"@.len() != "function.builtin"@.len());
        reveal_strlit("property");
        assert("punctuation.bracket"@.len() != "property"@.len());
        reveal_strlit("constructor");
        assert("punctuation.bracket"@.len() != "constructor"@.len());
        reveal_strlit("string");
        assert("punctuation.bracket"@.len() != "string"@.len());
        reveal_strlit("string.escape");
        assert("punctuation.bracket"@.len() != "string.escape"@.len());
        reveal_strlit("module");
        assert("punctuation.bracket"@.len() != "module"@.len());
        reveal_strlit("escape");
        assert("punctuation.bracket"@.len() != "escape"@.len());
        reveal_strlit("comment");
        assert("punctuation.bracket"@.len() != "comment"@.len());
        reveal_strlit("attribute");
        assert("punctuation.bracket"@.len() != "attribute"@.len());
        reveal_strlit("constant");
        assert("punctuation.bracket"@.len() != "constant"@.len());
        reveal_strlit("constant.builtin");
        assert("punctuation.bracket"@.len() != "constant.builtin"@.len());
        reveal_strlit("number");
        assert("punctuation.bracket"@.len() != "number"@.len());
        reveal_strlit("boolean");
        assert("punctuation.bracket"@.len() != "boolean"@.len());
    }
    assert(class_color(14, t) == name_color(recognized_names()[14], t)) by {
        reveal_strlit("punctuation.delimiter");
        reveal_strlit("keyword");
        assert("punctuation.delimiter"@.len() != "keyword"@.len());
        reveal_strlit("type");
        assert("punctuation.delimiter"@.len() != "type"@.len());
        reveal_strlit("type.builtin");
        assert("punctuation.delimiter"@.len() != "type.builtin"@.len());
        reveal_strlit("function");
        assert("punctuation.delimiter"@.len() != "function"@.len());
        reveal_strlit("function.builtin");
        assert("punctuation.delimiter"@.len() != "function.builtin"@.len());
        reveal_strlit("property");
        assert("punctuation.delimiter"@.len() != "property"@.len());
        reveal_strlit("constructor");
        assert("punctuation.delimiter"@.len() != "constructor"@.len());
        reveal_strlit("string");
        assert("punctuation.delimiter"@.len() != "string"@.len());
        reveal_strlit("string.escape");
        assert("punctuation.delimiter"@.len() != "string.escape"@.len());
        reveal_strlit("module");
        assert("punctuation.delimiter"@.len() != "module"@.len());
        reveal_strlit("escape");
        assert("punctuation.delimiter"@.len() != "escape"@.len());
        reveal_strlit("comment");
        assert("punctuation.delimiter"@.len() != "comment"@.len());
        reveal_strlit("attribute");
        assert("punctuation.delimiter"@.len() != "attribute"@.len());
        reveal_strlit("constant");
        assert("punctuation.delimiter"@.len() != "constant"@.len());
        reveal_strlit("constant.builtin");
        assert("punctuation.delimiter"@.len() != "constant.builtin"@.len());
        reveal_strlit("number");
        assert("punctuation.delimiter"@.len() != "number"@.len());
        reveal_strlit("boolean");
        assert("punctuation.delimiter"@.len() != "boolean"@.len());
    }
    assert(class_color(15, t) == name_color(recognized_names()[15], t)) by {
        reveal_strlit("variable");
        reveal_strlit("keyword");
        assert("variable"@.len() != "keyword"@.len());
        reveal_strlit("type");
        assert("variable"@.len() != "type"@.len());
        reveal_strlit("type.builtin");
        assert("variable"@.len() != "type.builtin"@.len());
        reveal_strlit("function");
        assert("variable"@[0] != "function"@[0]);
        reveal_strlit("function.builtin");
        assert("variable"@.len() != "function.builtin"@.len());
        reveal_strlit("property");
        assert("variable"@[0] != "property"@[0]);
        reveal_strlit("constructor");
        assert("variable"@.len() != "constructor"@.len());
        reveal_strlit("string");
        assert("variable"@.len() != "string"@.len());
        reveal_strlit("string.escape");
        assert("variable"@.len() != "string.escape"@.len());
        reveal_strlit("module");
        assert("variable"@.len() != "module"@.len());
        reveal_strlit("escape");
        assert("variable"@.len() != "escape"@.len());
        reveal_strlit("comment");
        assert("variable"@.len() != "comment"@.len());
        reveal_strlit("attribute");
        assert("variable"@.len() != "attribute"@.len());
        reveal_strlit("constant");
        assert("variable"@[0] != "constant"@[0]);
        reveal_strlit("constant.builtin");
        assert("variable"@.len() != "constant.builtin"@.len());
        reveal_strlit("number");
        assert("variable"@.len() != "number"@.len());
        reveal_strlit("boolean");
        assert("variable"@.len() != "boolean"@.len());
    }
    assert(class_color(16, t) == name_color(recognized_names()[16], t)) by {
        reveal_strlit("variable.builtin");
        reveal_strlit("keyword");
        assert("variable.builtin"@.len() != "keyword"@.len());
        reveal_strlit("type");
        assert("variable.builtin"@.len() != "type"@.len());
        reveal_strlit("type.builtin");
        assert("variable.builtin"@.len() != "type.builtin"@.len());
        reveal_strlit("function");
        assert("variable.builtin"@.len() != "function"@.len());
        reveal_strlit("function.builtin");
        assert("variable.builtin"@[0] != "function.builtin"@[0]);
        reveal_strlit("property");
        assert("variable.builtin"@.len() != "property"@.len());
        reveal_strlit("constructor");
        assert("variable.builtin"@.len() != "constructor"@.len());
        reveal_strlit("string");
        assert("variable.builtin"@.len() != "string"@.len());
        reveal_strlit("string.escape");
        assert("variable.builtin"@.len() != "string.escape"@.len());
        reveal_strlit("module");
        assert("variable.builtin"@.len() != "module"@.len());
        reveal_strlit("escape");
        assert("variable.builtin"@.len() != "escape"@.len());
        reveal_strlit("comment");
        assert("variable.builtin"@.len() != "comment"@.len());
        reveal_strlit("attribute");
        assert("variable.builtin"@.len() != "attribute"@.len());
        reveal_strlit("constant");
        assert("variable.builtin"@.len() != "constant"@.len());
        reveal_strlit("constant.builtin");
        assert("variable.builtin"@[0] != "constant.builtin"@[0]);
        reveal_strlit("number");
        assert("variable.builtin"@.len() != "number"@.len());
        reveal_strlit("boolean");
        assert("variable.builtin"@.len() != "boolean"@.len());
    }
    assert(class_color(17, t) == name_color(recognized_names()[17], t)) by {
        reveal_strlit("variable.parameter");
        reveal_strlit("keyword");
        assert("variable.parameter"@.len() != "keyword"@.len());
        reveal_strlit("type");
        assert("variable.parameter"@.len() != "type"@.len());
        reveal_strlit("type.builtin");
        assert("variable.parameter"@.len() != "type.builtin"@.len());
        reveal_strlit("function");
        assert("variable.parameter"@.len() != "function"@.len());
        reveal_strlit("function.builtin");
        assert("variable.parameter"@.len() != "function.builtin"@.len());
        reveal_strlit("property");
        assert("variable.parameter"@.len() != "property"@.len());
        reveal_strlit("constructor");
        assert("variable.parameter"@.len() != "constructor"@.len());
        reveal_strlit("string");
        assert("variable.parameter"@.len() != "string"@.len());
        reveal_strlit("string.escape");
        assert("variable.parameter"@.len() != "string.escape"@.len());
        reveal_strlit("module");
        assert("variable.parameter"@.len() != "module"@.len());
        reveal_strlit("escape");
        assert("variable.parameter"@.len() != "escape"@.len());
        reveal_strlit("comment");
        assert("variable.parameter"@.len() != "comment"@.len());
        reveal_strlit("attribute");
        assert("variable.parameter"@.len() != "attribute"@.len());
        reveal_strlit("constant");
        assert("variable.parameter"@.len() != "constant"@.len());
        reveal_strlit("constant.builtin");
        assert("variable.parameter"@.len() != "constant.builtin"@.len());
        reveal_strlit("number");
        assert("variable.parameter"@.len() != "number"@.len());
        reveal_strlit("boolean");
        assert("variable.parameter"@.len() != "boolean"@.len());
    }
    assert(class_color(18, t) == name_color(recognized_names()[18], t)) by {
        reveal_strlit("property");
        reveal_strlit("keyword");
        assert("property"@.len() != "keyword"@.len());
        reveal_strlit("type");
        assert("property"@.len() != "type"@.len());
        reveal_strlit("type.builtin");
        assert("property"@.len() != "type.builtin"@.len());
    }
    assert(class_color(19, t) == name_color(recognized_names()[19], t)) by {
        reveal_strlit("constructor");
        reveal_strlit("keyword");
        assert("constructor"@.len() != "keyword"@.len());
        reveal_strlit("type");
        assert("constructor"@.len() != "type"@.len());
        reveal_strlit("type.builtin");
        assert("constructor"@.len() != "type.builtin"@.len());
    }
    assert(class_color(20, t) == name_color(recognized_names()[20], t)) by {
        reveal_strlit("module");
        reveal_strlit("keyword");
        assert("module"@.len() != "keyword"@.len());
        reveal_strlit("type");
        assert("module"@.len() != "type"@.len());
        reveal_strlit("type.builtin");
        assert("module"@.len() != "type.builtin"@.len());
        reveal_strlit("function");
        assert("module"@.len() != "function"@.len());
        reveal_strlit("function.builtin");
        assert("module"@.len() != "function.builtin"@.len());
        reveal_strlit("property");
        assert("module"@.len() != "property"@.len());
        reveal_strlit("constructor");
        assert("module"@.len() != "constructor"@.len());
    }
    assert(class_color(21, t) == name_color(recognized_names()[21], t)) by {
        reveal_strlit("attribute");
        reveal_strlit("keyword");
        assert("attribute"@.len() != "keyword"@.len());
        reveal_strlit("type");
        assert("attribute"@.len() != "type"@.len());
        reveal_strlit("type.builtin");
        assert("attribute"@.len() != "type.builtin"@.len());
        reveal_strlit("function");
        assert("attribute"@.len() != "function"@.len());
        reveal_strlit("function.builtin");
        assert("attribute"@.len() != "function.builtin"@.len());
        reveal_strlit("property");
        assert("attribute"@.len() != "property"@.len());
        reveal_strlit("constructor");
        assert("attribute"@.len() != "constructor"@.len());
        reveal_strlit("string");
        assert("attribute"@.len() != "string"@.len());
        reveal_strlit("string.escape");
        assert("attribute"@.len() != "string.escape"@.len());
        reveal_strlit("module");
        assert("attribute"@.len() != "module"@.len());
        reveal_strlit("escape");
        assert("attribute"@.len() != "escape"@.len());
    }
    assert(class_color(22, t) == name_color(recognized_names()[22], t)) by {
        reveal_strlit("boolean");
        reveal_strlit("keyword");
        assert("boolean"@[0] != "keyword"@[0]);
        reveal_strlit("type");
        assert("boolean"@.len() != "type"@.len());
        reveal_strlit("type.builtin");
        assert("boolean"@.len() != "type.builtin"@.len());
        reveal_strlit("function");
        assert("boolean"@.len() != "function"@.len());
        reveal_strlit("function.builtin");
        assert("boolean"@.len() != "function.builtin"@.len());
        reveal_strlit("property");
        assert("boolean"@.len() != "property"@.len());
        reveal_strlit("constructor");
        assert("boolean"@.len() != "constructor"@.len());
        reveal_strlit("string");
        assert("boolean"@.len() != "string"@.len());
        reveal_strlit("string.escape");
        assert("boolean"@.len() != "string.escape"@.len());
        reveal_strlit("module");
        assert("boolean"@.len() != "module"@.len());
        reveal_strlit("escape");
        assert("boolean"@.len() != "escape"@.len());
        reveal_strlit("comment");
        assert("boolean"@[0] != "comment"@[0]);
        reveal_strlit("attribute");
        assert("boolean"@.len() != "attribute"@.len());
    }
    assert(class_color(23, t) == name_color(recognized_names()[23], t)) by {
        reveal_strlit("escape");
        reveal_strlit("keyword");
        assert("escape"@.len() != "keyword"@.len());
        reveal_strlit("type");
        assert("escape"@.len() != "type"@.len());
        reveal_strlit("type.builtin");
        assert("escape"@.len() != "type.builtin"@.len());
        reveal_strlit("function");
        assert("escape"@.len() != "function"@.len());
        reveal_strlit("function.builtin");
        assert("escape"@.len() != "function.builtin"@.len());
        reveal_strlit("property");
        assert("escape"@.len() != "property"@.len());
        reveal_strlit("constructor");
        assert("escape"@.len() != "constructor"@.len());
    }
}

/// A highlighter with a configuration for each grammar.
pub struct SyntaxHighlighter {
    highlighter: Highlighter,
    rust_config: HighlightConfiguration,
    javascript_config: HighlightConfiguration,
    python_config: HighlightConfiguration,
    json_config: HighlightConfiguration,
    toml_config: HighlightConfiguration,
    go_config: HighlightConfiguration,
}

impl SyntaxHighlighter {
    /// Each configuration was made from its own grammar and recognizes the
    /// recognized names.
    #[verifier::type_invariant]
    spec fn configs_match(self) -> bool {
        &&& config_grammar(self.rust_config) == Grammar::Rust
        &&& config_grammar(self.javascript_config) == Grammar::JavaScript
        &&& config_grammar(self.python_config) == Grammar::Python
        &&& config_grammar(self.json_config) == Grammar::Json
        &&& config_grammar(self.toml_config) == Grammar::Toml
        &&& config_grammar(self.go_config) == Grammar::Go
        &&& config_names(self.rust_config) == recognized_names()
        &&& config_names(self.javascript_config) == recognized_names()
        &&& config_names(self.python_config) == recognized_names()
        &&& config_names(self.json_config) == recognized_names()
        &&& config_names(self.toml_config) == recognized_names()
        &&& config_names(self.go_config) == recognized_names()
    }

    /// A highlighter for each grammar, each configured with the recognized
    /// names: `Ok` exactly when every grammar's query compiles; otherwise
    /// `Err` names the first grammar, in the order of `grammar_rank`, whose
    /// query does not.
    pub fn new() -> (r: Result<SyntaxHighlighter, Grammar>)
        ensures
            r is Ok <==> (forall|g: Grammar| #[trigger] query_compiles(g)),
            r matches Err(g) ==> !query_compiles(g) && (forall|h: Grammar|
                grammar_rank(h) < grammar_rank(g) ==> #[trigger] query_compiles(h)),
    {
        let names = highlight_names();
        let rust_config = match language_config(Grammar::Rust, &names) {
            Some(c) => c,
            None => {
                return Err(Grammar::Rust);
            },
        };
        let javascript_config = match language_config(Grammar::JavaScript, &names) {
            Some(c) => c,
            None => {
                return Err(Grammar::JavaScript);
            },
        };
        let python_config = match language_config(Grammar::Python, &names) {
            Some(c) => c,
            None => {
                return Err(Grammar::Python);
            },
        };
        let json_config = match language_config(Grammar::Json, &names) {
            Some(c) => c,
            None => {
                return Err(Grammar::Json);
            },
        };
        let toml_config = match language_config(Grammar::Toml, &names) {
            Some(c) => c,
            None => {
                return Err(Grammar::Toml);
            },
        };
        let go_config = match language_config(Grammar::Go, &names) {
            Some(c) => c,
            None => {
                return Err(Grammar::Go);
            },
        };
        assert forall|g: Grammar| #[trigger] query_compiles(g) by {
            match g {
                Grammar::Rust => {},
                Grammar::JavaScript => {},
                Grammar::Python => {},
                Grammar::Json => {},
                Grammar::Toml => {},
                Grammar::Go => {},
            }
        }
        Ok(SyntaxHighlighter {
            highlighter: highlighter_new(),
            rust_config,
            javascript_config,
            python_config,
            json_config,
            toml_config,
            go_config,
        })
    }

    /// Compute highlight spans for the given source code.
    /// Returns byte-offset ranges with associated colors from the theme.
    pub fn highlight(&mut self, source: &str, extension: &str, theme: &Theme) -> (spans: Vec<ColorSpan>)
        ensures
            spans@ == highlighted(extension@, source@, *theme),
    {
        proof {
            use_type_invariant(&*self);
        }
        let language = match language_for_extension(extension) {
            Some(l) => l,
            None => {
                return Vec::new();
            },
        };
        let config = match language {
            Grammar::Rust => &self.rust_config,
            Grammar::JavaScript => &self.javascript_config,
            Grammar::Python => &self.python_config,
            Grammar::Json => &self.json_config,
            Grammar::Toml => &self.toml_config,
            Grammar::Go => &self.go_config,
        };
        let bytes = source.as_bytes();
        // The highlighter is taken out for the run and put back after.
        let mut highlighter = highlighter_new();
        std::mem::swap(&mut highlighter, &mut self.highlighter);
        let steps = run_highlighter(&mut highlighter, config, bytes);
        std::mem::swap(&mut highlighter, &mut self.highlighter);
        match steps {
            Some(steps) => spans_from_steps(&steps, theme),
            None => {
                assert(span_walk(Seq::<HighlightStep>::empty(), *theme).0 =~= Seq::<ColorSpan>::empty());
                Vec::new()
            },
        }
    }
}

} // verus!
