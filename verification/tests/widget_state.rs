use tui::widget_state::WidgetState;

#[test]
fn test_interactive_style_normal() {
    let state = WidgetState::new();
    assert!(!state.is_focused());
    assert!(!state.is_disabled());
}

#[test]
fn test_interactive_style_focused() {
    let mut state = WidgetState::new();
    state.set_focused(true);
    assert!(state.is_focused());
}

#[test]
fn test_interactive_style_disabled() {
    let state = WidgetState::new().with_disabled(true);
    assert!(state.is_disabled());
}

#[test]
fn test_border_color_normal() {
    let state = WidgetState::new();
    assert!(!state.is_focused());
}

#[test]
fn test_border_color_focused() {
    let mut state = WidgetState::new();
    state.set_focused(true);
    assert!(state.is_focused());
}
