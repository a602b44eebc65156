use tui::theme::{Theme, ThemeColors};

#[test]
fn test_dark_theme_creation() {
    let theme = Theme::dark();
    assert_eq!(theme.name, "dark");
}

#[test]
fn test_light_theme_creation() {
    let theme = Theme::light();
    assert_eq!(theme.name, "light");
}

#[test]
fn test_custom_theme_builder() {
    let theme = Theme::builder().name("custom").colors(ThemeColors::dark()).build();
    assert_eq!(theme.name, "custom");
}
