use tui::enhanced::{enhanced, Enhanced};
use tui::event::{Event, EventResult, KeyCode, KeyEvent, MouseButton, MouseEvent, MouseEventKind, Widget};
use tui::geometry::Rect;
use tui::interactive::interactive;
use tui::label::{label, Label};
use tui::style::{BorderStyle, Color, Padding};
use tui::theme::Theme;

#[derive(Debug, Clone, PartialEq)]
enum Msg {
    Clicked,
    Pressed,
    Released,
    Hovered,
    Dragged,
}

fn mouse(kind: MouseEventKind, column: u16, row: u16) -> Event {
    Event::Mouse(MouseEvent { kind, column, row })
}

fn messages(r: EventResult<Msg>) -> Vec<Msg> {
    match r {
        EventResult::Consumed(v) => v,
        EventResult::Ignored => vec![],
    }
}

fn area() -> Rect {
    Rect { x: 10, y: 5, width: 8, height: 2 }
}

#[test]
fn enhanced_click_needs_press_and_release_nearby() {
    let mut w: Enhanced<Msg, Label<Msg>> = enhanced(label("Click me")).on_click(|| Msg::Clicked);
    // Never drawn: nothing to hit.
    assert!(matches!(w.handle_event(&mouse(MouseEventKind::Down(MouseButton::Left), 11, 5)), EventResult::Ignored));
    w.cache_area(area());
    assert!(messages(w.handle_event(&mouse(MouseEventKind::Down(MouseButton::Left), 11, 5))).is_empty());
    assert_eq!(messages(w.handle_event(&mouse(MouseEventKind::Up(MouseButton::Left), 12, 6))), vec![Msg::Clicked]);
    // Released two cells away: no click.
    w.handle_event(&mouse(MouseEventKind::Down(MouseButton::Left), 11, 5));
    assert!(messages(w.handle_event(&mouse(MouseEventKind::Up(MouseButton::Left), 13, 5))).is_empty());
    // Pressed outside: no click.
    w.handle_event(&mouse(MouseEventKind::Down(MouseButton::Left), 1, 1));
    assert!(messages(w.handle_event(&mouse(MouseEventKind::Up(MouseButton::Left), 11, 5))).is_empty());
    // Released outside: no click, and the press is forgotten.
    w.handle_event(&mouse(MouseEventKind::Down(MouseButton::Left), 11, 5));
    assert!(messages(w.handle_event(&mouse(MouseEventKind::Up(MouseButton::Left), 30, 5))).is_empty());
    assert!(messages(w.handle_event(&mouse(MouseEventKind::Up(MouseButton::Left), 11, 5))).is_empty());
}

#[test]
fn enhanced_keys_click_only_when_focused() {
    let mut w: Enhanced<Msg, Label<Msg>> = enhanced(label("Key")).focusable().on_click(|| Msg::Clicked);
    assert!(Widget::focusable(&w));
    assert!(matches!(w.handle_event(&Event::Key(KeyEvent::new(KeyCode::Enter))), EventResult::Ignored));
    w.set_focused(true);
    assert!(w.is_focused());
    assert_eq!(messages(w.handle_event(&Event::Key(KeyEvent::new(KeyCode::Enter)))), vec![Msg::Clicked]);
    assert_eq!(messages(w.handle_event(&Event::Key(KeyEvent::new(KeyCode::Char(' '))))), vec![Msg::Clicked]);
    assert!(matches!(w.handle_event(&Event::Key(KeyEvent::new(KeyCode::Char('x')))), EventResult::Ignored));
    w.set_focused(false);
    assert!(!w.is_focused());
    let plain: Enhanced<Msg, Label<Msg>> = enhanced(label("x"));
    assert!(!Widget::focusable(&plain));
}

#[test]
fn enhanced_constraints_grow_by_padding_and_border() {
    let w: Enhanced<Msg, Label<Msg>> = enhanced(label("abcd"));
    let c = w.constraints();
    assert_eq!((c.min_width, c.max_width, c.min_height, c.max_height), (4, Some(4), 1, Some(1)));
    let w = w.padding(Padding::new(1, 2, 3, 4));
    let c = w.constraints();
    assert_eq!((c.min_width, c.max_width, c.min_height, c.max_height), (10, Some(10), 5, Some(5)));
    let w = w.bordered(BorderStyle::Single);
    let c = w.constraints();
    assert_eq!((c.min_width, c.max_width, c.min_height, c.max_height), (12, Some(12), 7, Some(7)));
    let huge: Enhanced<Msg, Label<Msg>> = enhanced(label("abcd")).padding(Padding::new(0, 65535, 0, 1));
    assert_eq!(huge.constraints().min_width, 65535);
}

#[test]
fn enhanced_styles_follow_state() {
    let theme = Theme::dark();
    let w: Enhanced<Msg, Label<Msg>> = enhanced(label("s"));
    assert_eq!(w.compute_effective_style(&theme), theme.styles.interactive);
    assert_eq!(w.compute_border_color(&theme), theme.colors.border);
    let mut w = w.fg(Color::Red).focus_bg(Color::Blue).focus_border_color(Color::Green);
    assert_eq!(w.compute_effective_style(&theme).fg_color, Some(Color::Red));
    w.set_focused(true);
    let s = w.compute_effective_style(&theme);
    assert_eq!(s.bg_color, Some(Color::Blue));
    assert_eq!(s.fg_color, None);
    assert_eq!(w.compute_border_color(&theme), Color::Green);
    let w = w.disabled(true);
    assert_eq!(w.compute_effective_style(&theme), theme.styles.disabled);
    let w2: Enhanced<Msg, Label<Msg>> = enhanced(label("s")).hover_fg(Color::Cyan).border_color(Color::Yellow);
    assert_eq!(w2.compute_border_color(&theme), Color::Yellow);
    assert_eq!(w2.compute_effective_style(&theme), theme.styles.interactive);
}

#[test]
fn enhanced_inner_access() {
    let mut w: Enhanced<Msg, Label<Msg>> = enhanced(label("in"));
    assert_eq!(w.inner().constraints().min_width, 2);
    *w.inner_mut() = label("inner");
    assert_eq!(w.into_inner().constraints().min_width, 5);
}

#[test]
fn interactive_fires_in_order() {
    let mut w = interactive::<Msg, Label<Msg>>(label("hi"))
        .on_click(|| Msg::Clicked)
        .on_press(|| Msg::Pressed)
        .on_release(|| Msg::Released)
        .on_hover(|| Msg::Hovered)
        .on_drag(|| Msg::Dragged);
    assert!(matches!(w.handle_event(&mouse(MouseEventKind::Moved, 11, 5)), EventResult::Ignored));
    w.cache_area(area());
    assert_eq!(messages(w.handle_event(&mouse(MouseEventKind::Moved, 11, 5))), vec![Msg::Hovered]);
    // Hovering again fires nothing but the event is inside.
    assert!(matches!(w.handle_event(&mouse(MouseEventKind::Moved, 12, 5)), EventResult::Consumed(_)));
    assert_eq!(messages(w.handle_event(&mouse(MouseEventKind::Down(MouseButton::Left), 11, 5))), vec![Msg::Pressed]);
    assert_eq!(messages(w.handle_event(&mouse(MouseEventKind::Drag(MouseButton::Left), 12, 5))), vec![Msg::Dragged]);
    assert_eq!(
        messages(w.handle_event(&mouse(MouseEventKind::Up(MouseButton::Left), 12, 6))),
        vec![Msg::Released, Msg::Clicked]
    );
    assert!(matches!(w.handle_event(&mouse(MouseEventKind::Moved, 40, 40)), EventResult::Ignored));
    assert_eq!(messages(w.handle_event(&mouse(MouseEventKind::Moved, 11, 5))), vec![Msg::Hovered]);
}

#[test]
fn interactive_click_needs_a_near_release_inside() {
    let mut w = interactive::<Msg, Label<Msg>>(label("hi")).on_click(|| Msg::Clicked);
    w.cache_area(area());
    let _ = w.handle_event(&mouse(MouseEventKind::Down(MouseButton::Left), 11, 5));
    // Two cells away: no click, but the event is inside.
    let r = w.handle_event(&mouse(MouseEventKind::Up(MouseButton::Left), 13, 5));
    assert!(messages(r).is_empty());
    let _ = w.handle_event(&mouse(MouseEventKind::Down(MouseButton::Left), 11, 5));
    // Outside the area: ignored.
    assert!(matches!(w.handle_event(&mouse(MouseEventKind::Up(MouseButton::Left), 11, 9)), EventResult::Ignored));
    // The press was let go: a release nearby now clicks nothing.
    assert!(messages(w.handle_event(&mouse(MouseEventKind::Up(MouseButton::Left), 11, 5))).is_empty());
    let _ = w.handle_event(&mouse(MouseEventKind::Down(MouseButton::Left), 11, 5));
    assert_eq!(messages(w.handle_event(&mouse(MouseEventKind::Up(MouseButton::Left), 12, 6))), vec![Msg::Clicked]);
}

#[test]
fn enhanced_plan_shrinks_by_padding_and_border() {
    let theme = Theme::dark();
    let w: Enhanced<Msg, Label<Msg>> = enhanced(label("x"))
        .padding(Padding { top: 1, right: 1, bottom: 1, left: 1 })
        .bordered(BorderStyle::Single)
        .border_color(Color::Red)
        .bg(Color::Blue);
    let p = w.render_plan(Rect { x: 0, y: 0, width: 10, height: 5 }, &theme);
    assert_eq!(p.fill.unwrap().bg_color, Some(Color::Blue));
    assert_eq!(p.border, Some((BorderStyle::Single, Color::Red)));
    assert_eq!(p.inner, Some(Rect { x: 2, y: 2, width: 6, height: 1 }));
    let tight = w.render_plan(Rect { x: 0, y: 0, width: 10, height: 4 }, &theme);
    assert!(tight.border.is_some() && tight.inner.is_none());
    let none = w.render_plan(Rect { x: 0, y: 0, width: 2, height: 5 }, &theme);
    assert!(none.border.is_none() && none.inner.is_none());
    let bare: Enhanced<Msg, Label<Msg>> = enhanced(label("x"));
    let p = bare.render_plan(Rect { x: 3, y: 4, width: 5, height: 1 }, &theme);
    assert!(p.border.is_none());
    assert_eq!(p.fill.is_some(), bare.compute_effective_style(&theme).bg_color.is_some());
    assert_eq!(p.inner, Some(Rect { x: 3, y: 4, width: 5, height: 1 }));
}
