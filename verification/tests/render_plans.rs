use std::sync::atomic::{AtomicUsize, Ordering};
use std::sync::Arc;
use tui::any::AnyWidget;
use tui::button::Button;
use tui::event::{Event, EventResult, KeyCode, KeyEvent, Widget};
use tui::dialog::{Dialog, DialogMessage};
use tui::keyboard::KeyboardController;
use tui::label::label;
use tui::tabs::{RowLook, TabItem, TabLook, TabVariant, Tabs};
use tui::text_input::{TextInput, TextInputVariant};
use tui::textarea::{Textarea, TextareaVariant};
use tui::theme::Theme;
use tui::tree::SimpleTreeNode;
use tui::tree_view::{TreePlan, TreeView};

#[test]
fn textarea_plan_scrolls_to_the_cursor() {
    let theme = Theme::dark();
    let mut area = Textarea::<()>::new().value("one\ntwo\nthree").line_numbers(true);
    area.set_focused(true);
    assert!(area.render_plan(3, 10, &theme).is_none());
    assert!(area.render_plan(10, 2, &theme).is_none());
    let p = area.render_plan(20, 4, &theme).unwrap();
    assert!(!p.bottom_only);
    assert_eq!((p.number_x, p.text_x, p.text_y, p.content_width), (2, 4, 1, 14));
    assert!(p.has_room);
    assert_eq!(p.rows.len(), 2);
    assert_eq!(p.rows[0].y, 1);
    assert_eq!(p.rows[0].number.as_deref(), Some("2 "));
    assert_eq!(p.rows[0].text, "two");
    assert_eq!(p.rows[1].number.as_deref(), Some("3 "));
    assert_eq!(p.rows[1].text, "three");
    let c = p.cursor.unwrap();
    assert_eq!((c.x, c.y, c.ch), (9, 2, ' '));
    assert_eq!(p.border_style.fg_color, Some(theme.colors.focus_ring));
}

#[test]
fn textarea_plan_placeholder_and_wrap() {
    let theme = Theme::dark();
    let area = Textarea::<()>::new().placeholder("Type here please").variant(TextareaVariant::Borderless);
    let p = area.render_plan(10, 3, &theme).unwrap();
    assert!(p.bottom_only);
    assert_eq!(p.content_width, 8);
    let (text, style) = p.placeholder.unwrap();
    assert_eq!(text, "Type her");
    assert_eq!(style.fg_color, Some(theme.colors.text_muted));
    assert!(p.rows.is_empty() && p.cursor.is_none());
    let narrow = Textarea::<()>::new().value("x").render_plan(4, 5, &theme).unwrap();
    assert!(!narrow.has_room && narrow.rows.is_empty());
    let long = Textarea::<()>::new().value("abcdefghijkl").render_plan(10, 3, &theme).unwrap();
    assert_eq!(long.rows.len(), 1);
    assert_eq!(long.rows[0].text, "abcdef");
    assert!(long.cursor.is_none());
    let unwrapped = Textarea::<()>::new().value("abcdefghijkl").line_wrap(false).render_plan(10, 3, &theme).unwrap();
    assert_eq!(unwrapped.rows[0].text, "abcdefghijkl");
}

#[test]
fn tabs_horizontal_plan() {
    let theme = Theme::dark();
    let t: Tabs<()> = Tabs::new()
        .tab(TabItem::new("One", label("1")))
        .tab(TabItem::new("Two", label("2")))
        .tab(TabItem::new("Three", label("3")))
        .variant(TabVariant::Line);
    let cells = t.horizontal_plan(20, 2, &theme);
    assert_eq!(cells.len(), 2);
    assert_eq!((cells[0].x, cells[0].width, cells[0].label.as_str()), (0, 7, "One"));
    assert!(matches!(cells[0].look, TabLook::Underlined { count: 5, .. }));
    assert_eq!((cells[1].x, cells[1].width), (8, 7));
    assert!(matches!(cells[1].look, TabLook::Padded));
    assert_eq!(cells[0].style.fg_color, Some(theme.colors.primary));
    assert_eq!(cells[1].style.fg_color, Some(theme.colors.text_muted));
    let one_line = t.horizontal_plan(20, 1, &theme);
    assert!(matches!(one_line[0].look, TabLook::Padded));
    assert!(t.horizontal_plan(0, 5, &theme).is_empty());
    let solid: Tabs<()> = Tabs::new().tab(TabItem::new("A", label("a"))).variant(TabVariant::Solid);
    assert!(matches!(solid.horizontal_plan(10, 1, &theme)[0].look, TabLook::Filled));
}

#[test]
fn tree_render_plan_rows() {
    let theme = Theme::dark();
    let a = SimpleTreeNode::branch(1u32, "A", vec![SimpleTreeNode::leaf(2, "A1")]);
    let b = SimpleTreeNode::leaf(3u32, "B").with_icon("*");
    let t: TreeView<SimpleTreeNode<u32>, ()> = TreeView::new(vec![a, b]);
    assert!(t.render_plan(0, 5, &theme).is_none());
    match t.render_plan(30, 5, &theme).unwrap() {
        TreePlan::Rows { rows, content_width, scrollbar } => {
            assert_eq!((content_width, scrollbar), (30, false));
            assert_eq!(rows.len(), 2);
            assert_eq!(rows[0].marker.as_deref(), Some("▶ "));
            assert_eq!((rows[0].marker_x, rows[0].label_x, rows[0].label.as_str()), (0, 4, "A"));
            assert!(rows[0].fill);
            assert_eq!(rows[1].marker.as_deref(), Some("  "));
            assert_eq!(rows[1].icon.as_deref(), Some("*"));
            assert_eq!((rows[1].icon_x, rows[1].label_x, rows[1].y), (2, 4, 1));
            assert!(!rows[1].fill);
        },
        _ => panic!("rows expected"),
    }
    let e: TreeView<SimpleTreeNode<u32>, ()> = TreeView::new(vec![]);
    match e.render_plan(30, 5, &theme).unwrap() {
        TreePlan::Empty { message, x, y, .. } => {
            assert_eq!((message.as_str(), x, y), ("No items", 11, 2));
        },
        _ => panic!("empty message expected"),
    }
}

#[test]
fn keyboard_and_any_widget_events() {
    let mut kc: KeyboardController<u8> = KeyboardController::new().on_up(|| 1).on_key(KeyCode::Char('q'), || 9);
    match kc.handle_event(&Event::Key(KeyEvent::new(KeyCode::Up))) {
        EventResult::Consumed(v) => assert_eq!(v, vec![1]),
        EventResult::Ignored => panic!("up consumed"),
    }
    assert!(matches!(kc.handle_event(&Event::Key(KeyEvent::new(KeyCode::Down))), EventResult::Ignored));
    let mut any: AnyWidget<u8> = AnyWidget::KeyboardController(kc);
    let (r, msgs) = any.handle_event_with_messages(&Event::Key(KeyEvent::new(KeyCode::Char('q'))));
    assert!(matches!(r, EventResult::Consumed(_)));
    assert_eq!(msgs, vec![9]);
    let mut b: AnyWidget<u8> = AnyWidget::Button(Button::new("Go").on_click(|| 4));
    let (r, msgs) = b.handle_event_with_messages(&Event::Key(KeyEvent::new(KeyCode::Enter)));
    assert!(matches!(r, EventResult::Consumed(_)));
    assert_eq!(msgs, vec![4]);
}

#[test]
fn keyboard_handlers_run_on_each_press() {
    let count = Arc::new(AtomicUsize::new(0));
    let seen = count.clone();
    let mut kc: KeyboardController<usize> = KeyboardController::new()
        .on_key(KeyCode::Enter, move || seen.fetch_add(1, Ordering::SeqCst) + 1)
        .on_chars(&['a', 'b'], |c| c as usize);
    assert_eq!(count.load(Ordering::SeqCst), 0);
    for expected in 1..=3usize {
        match kc.handle_event(&Event::Key(KeyEvent::new(KeyCode::Enter))) {
            EventResult::Consumed(v) => assert_eq!(v, vec![expected]),
            EventResult::Ignored => panic!("enter consumed"),
        }
    }
    match kc.handle_event(&Event::Key(KeyEvent::new(KeyCode::Char('b')))) {
        EventResult::Consumed(v) => assert_eq!(v, vec![98]),
        EventResult::Ignored => panic!("b consumed"),
    }
    let mut copy = kc.clone();
    assert!(matches!(copy.handle_event(&Event::Key(KeyEvent::new(KeyCode::Char('c')))), EventResult::Ignored));
    match copy.handle_event(&Event::Key(KeyEvent::new(KeyCode::Enter))) {
        EventResult::Consumed(v) => assert_eq!(v, vec![4]),
        EventResult::Ignored => panic!("enter consumed"),
    }
}

#[test]
fn text_input_plan_places_text_and_cursor() {
    let theme = Theme::dark();
    let empty = TextInput::<()>::new().placeholder("Your name here");
    assert!(empty.render_plan(3, 3, &theme).is_none());
    assert!(empty.render_plan(10, 2, &theme).is_none());
    let p = empty.render_plan(10, 3, &theme).unwrap();
    assert!(!p.bottom_only);
    assert_eq!((p.text_x, p.text_y, p.room), (2, 1, 6));
    let (text, style) = p.placeholder.unwrap();
    assert_eq!(text, "Your n");
    assert_eq!(style.fg_color, Some(theme.colors.text_muted));
    assert!(p.text.is_none() && p.cursor.is_none());
    assert_eq!(p.border_style.fg_color, Some(theme.colors.border));

    let mut focused = TextInput::<()>::new().placeholder("Your name here").variant(TextInputVariant::Borderless);
    focused.set_focused(true);
    let p = focused.render_plan(10, 3, &theme).unwrap();
    assert!(p.bottom_only);
    assert_eq!((p.text_x, p.room), (1, 8));
    assert!(p.placeholder.is_none() && p.text.is_none());
    let c = p.cursor.unwrap();
    assert_eq!((c.x, c.y, c.ch), (1, 1, ' '));
    assert_eq!(c.style.bg_color, Some(theme.colors.text));
    assert_eq!(p.border_style.fg_color, Some(theme.colors.focus_ring));

    let mut typed = TextInput::<()>::new().value("hello world");
    typed.set_focused(true);
    let p = typed.render_plan(9, 3, &theme).unwrap();
    assert_eq!(p.text.unwrap().0, "hello");
    assert!(p.cursor.is_none());
    let _ = typed.handle_event(&Event::Key(KeyEvent::new(KeyCode::Home)));
    let _ = typed.handle_event(&Event::Key(KeyEvent::new(KeyCode::Right)));
    let p = typed.render_plan(9, 3, &theme).unwrap();
    let c = p.cursor.unwrap();
    assert_eq!((c.x, c.ch), (3, 'e'));

    let secret = TextInput::<()>::new().variant(TextInputVariant::Password).value("abc");
    let p = secret.render_plan(10, 3, &theme).unwrap();
    assert_eq!(p.text.unwrap().0, "•••");
    assert!(p.cursor.is_none());
    assert_eq!(TextInput::<()>::new().value("x").render_plan(4, 3, &theme).unwrap().room, 0);
}

#[test]
fn tabs_vertical_plan() {
    let theme = Theme::dark();
    let t: Tabs<()> = Tabs::new()
        .tab(TabItem::new("One", label("1")))
        .tab(TabItem::new("Three", label("3")))
        .tab(TabItem::new("Two", label("2")))
        .variant(TabVariant::Line)
        .active(1);
    assert!(t.vertical_plan(0, 5, &theme).is_empty());
    let rows = t.vertical_plan(20, 2, &theme);
    assert_eq!(rows.len(), 2);
    assert_eq!((rows[0].y, rows[0].label.as_str()), (0, "One"));
    assert!(matches!(rows[0].look, RowLook::Padded));
    assert_eq!((rows[1].y, rows[1].label.as_str()), (1, "Three"));
    assert!(matches!(rows[1].look, RowLook::Marked { x: 8, .. }));
    assert_eq!(rows[1].style.fg_color, Some(theme.colors.primary));
    assert_eq!(rows[0].style.fg_color, Some(theme.colors.text_muted));
    assert!(matches!(t.vertical_plan(9, 5, &theme)[1].look, RowLook::Padded));
    assert_eq!(t.vertical_plan(20, 9, &theme).len(), 3);
    let pills: Tabs<()> = Tabs::new().tab(TabItem::new("Ab", label("a"))).variant(TabVariant::Pills);
    assert!(matches!(pills.vertical_plan(10, 3, &theme)[0].look, RowLook::Filled { width: 6 }));
}

#[test]
fn dialog_traps_events_and_closes_on_escape() {
    let mut d: Dialog<DialogMessage> = Dialog::new(label("back"), label("front")).on_close(|| DialogMessage::Closed);
    match d.handle_event(&Event::Key(KeyEvent::new(KeyCode::Char('x')))) {
        EventResult::Consumed(v) => assert!(v.is_empty()),
        EventResult::Ignored => panic!("a dialog consumes every event"),
    }
    match d.handle_event(&Event::Key(KeyEvent::new(KeyCode::Esc))) {
        EventResult::Consumed(v) => assert_eq!(v, vec![DialogMessage::Closed]),
        EventResult::Ignored => panic!("escape closes the dialog"),
    }
    match Dialog::<u8>::after_content(EventResult::Consumed(vec![7])) {
        EventResult::Consumed(v) => assert_eq!(v, vec![7]),
        EventResult::Ignored => panic!("consumed stays consumed"),
    }
    assert!(matches!(Dialog::<u8>::after_content(EventResult::Ignored), EventResult::Consumed(v) if v.is_empty()));
}

#[test]
fn tabs_pass_other_keys_to_the_active_content() {
    let mut t: Tabs<()> = Tabs::new().tab(TabItem::new("One", label("1"))).tab(TabItem::new("Two", label("2")));
    assert!(matches!(t.handle_event(&Event::Key(KeyEvent::new(KeyCode::Char('z')))), EventResult::Ignored));
    assert!(matches!(t.handle_event(&Event::Key(KeyEvent::new(KeyCode::Right))), EventResult::Consumed(_)));
}
