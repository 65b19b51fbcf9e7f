use s3_tui::theme::{choose_theme, theme_index, ThemeChoice, DEFAULT_THEME_ID};

fn builtin_id(choice: &ThemeChoice) -> &'static str {
    match choice {
        ThemeChoice::Builtin(i) => ratatui_themekit::BUILTIN_THEMES[*i].id,
        other => panic!("expected a built-in theme, got {other:?}"),
    }
}

#[test]
fn from_id_resolves_builtin() {
    assert_eq!(builtin_id(&choose_theme(false, Some("nord".to_string()), None)), "nord");
    assert_eq!(builtin_id(&choose_theme(false, Some("tokyo-night".to_string()), None)), "tokyo-night");
}

#[test]
fn from_id_falls_back_on_unknown() {
    match choose_theme(false, Some("not-a-theme".to_string()), None) {
        ThemeChoice::Fallback(id) => assert_eq!(id, "not-a-theme"),
        other => panic!("expected a fallback, got {other:?}"),
    }
    assert_eq!(ratatui_themekit::default_theme().id, DEFAULT_THEME_ID);
}

#[test]
fn resolve_honours_s3tui_theme_env() {
    let choice = choose_theme(false, Some("dracula".to_string()), Some("nord".to_string()));
    assert_eq!(builtin_id(&choice), "dracula");
}

#[test]
fn no_color_overrides_explicit_theme() {
    assert!(matches!(choose_theme(true, Some("dracula".to_string()), None), ThemeChoice::NoColor));
}

#[test]
fn unknown_env_theme_falls_back() {
    assert!(matches!(choose_theme(false, Some("fancy".to_string()), None), ThemeChoice::Fallback(_)));
}

#[test]
fn config_theme_then_default() {
    assert_eq!(builtin_id(&choose_theme(false, None, Some("gruvbox".to_string()))), "gruvbox");
    assert_eq!(builtin_id(&choose_theme(false, None, None)), "catppuccin");
    assert_eq!(theme_index("terminal"), Some(9));
    assert_eq!(theme_index("no-color"), None);
}
