use tui::event::Widget;
use tui::radio::RadioGroup;
use tui::style::{Color, Style};
use tui::tabs::Tabs;
use tui::widget_state::{StatefulWidgetBuilder, WidgetState};

struct TestWidget {
    state: WidgetState,
}

impl TestWidget {
    fn new() -> Self {
        Self { state: WidgetState::new() }
    }
}

impl StatefulWidgetBuilder for TestWidget {
    fn builder_state(&self) -> WidgetState {
        self.state.clone()
    }

    fn widget_state_mut(&mut self) -> &mut WidgetState {
        &mut self.state
    }
}

#[test]
fn test_disabled_builder() {
    let widget = TestWidget::new().disabled(true);
    assert!(widget.state.is_disabled());
}

#[test]
fn test_style_builder() {
    let style = Style::default().fg(Color::Cyan);
    let widget = TestWidget::new().style(style);
    assert!(widget.state.custom_style.is_some());
}

#[test]
fn test_focus_style_builder() {
    let style = Style::default().fg(Color::Cyan).bold();
    let widget = TestWidget::new().focus_style(style);
    assert!(widget.state.custom_focus_style.is_some());
}

#[test]
fn test_chained_builders() {
    let widget = TestWidget::new()
        .disabled(true)
        .style(Style::default().fg(Color::Red))
        .focus_style(Style::default().fg(Color::Blue).bold());

    assert!(widget.state.is_disabled());
    assert!(widget.state.custom_style.is_some());
    assert!(widget.state.custom_focus_style.is_some());
}

#[test]
fn builder_keeps_other_fields() {
    let widget = TestWidget::new().style(Style::default().fg(Color::Red)).disabled(false);
    assert!(!widget.state.is_disabled());
    assert_eq!(widget.state.custom_style, Some(Style::default().fg(Color::Red)));
    assert!(widget.state.custom_focus_style.is_none());
    assert!(!widget.state.focused);
}

#[test]
fn radio_and_tabs_take_the_state_builders() {
    let g = StatefulWidgetBuilder::disabled(RadioGroup::<()>::new(&["a", "b"]), true);
    assert!(!g.focusable());
    let g = StatefulWidgetBuilder::disabled(g, false);
    assert!(g.focusable());
    let t = StatefulWidgetBuilder::style(Tabs::<()>::new(), Style::default().fg(Color::Red));
    let t = StatefulWidgetBuilder::disabled(t, true);
    assert!(!t.focusable());
    let t = StatefulWidgetBuilder::focus_style(t, Style::default());
    assert!(!t.is_focused());
}
