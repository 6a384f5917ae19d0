use mewtui::theme::{theme_at, Color, THEME_COUNT};

#[test]
fn twenty_builtin_themes_with_distinct_names() {
    assert_eq!(THEME_COUNT, 20);
    let names: Vec<&str> = (0..THEME_COUNT).map(|i| theme_at(i).name).collect();
    assert_eq!(
        names,
        vec![
            "dracula", "catppuccin", "tokyo-night", "rose-pine", "synthwave", "night-owl", "kanagawa",
            "ayu-dark", "everforest", "one-dark", "monokai", "github-dark", "gruvbox", "nord", "solarized",
            "phosphor", "amber", "cobalt", "terminal", "void",
        ]
    );
}

#[test]
fn default_theme_is_dracula() {
    let t = theme_at(0);
    assert_eq!(t.name, "dracula");
    assert_eq!(t.bg, Color::Rgb(40, 42, 54));
    assert_eq!(t.syntax_keyword, Color::Rgb(255, 121, 198));
}

#[test]
fn void_is_black_and_white_with_red_accent() {
    let t = theme_at(19);
    assert_eq!((t.bg, t.fg, t.accent), (Color::Rgb(0, 0, 0), Color::Rgb(255, 255, 255), Color::Rgb(255, 0, 0)));
}
