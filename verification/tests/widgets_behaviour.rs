use tui::any::AnyWidget;
use tui::button::{Button, ButtonVariant};
use tui::checkbox_group::{CheckboxDirection, CheckboxGroup};
use tui::radio::{RadioDirection, RadioGroup};
use tui::code_block::LineMarker;
use tui::list::{List, ListPlan};
use tui::code_block::CodeBlock;
use tui::css::{parse_color, parse_css, parse_padding, CssError};
use tui::event::{Event, EventResult, KeyCode, KeyEvent, KeyModifiers, Widget};
use tui::label::Label;
use tui::list::{ListItem, SelectionMode};
use tui::select::{render_item, render_trigger, truncate_text, DropdownStyles, SelectItem, StyleConfig};
use tui::style::Color;
use tui::table::{Column, ColumnWidth, Table};
use tui::tabs::{TabBadge, TabItem, Tabs};
use tui::text_input::{TextInput, TextInputVariant};
use tui::textarea::{Selection, Textarea};
use tui::theme::Theme;
use tui::tree::{SimpleTreeNode, TreeNode};
use tui::widget_id::WidgetId;
use tui::widgets::Text;

fn key(code: KeyCode) -> Event {
    Event::Key(KeyEvent::new(code))
}

fn ctrl(code: KeyCode) -> Event {
    Event::Key(KeyEvent { code, modifiers: KeyModifiers { shift: false, control: true, alt: false } })
}

fn messages<M: Clone>(r: &EventResult<M>) -> Vec<M> {
    r.messages_ref().to_vec()
}

#[test]
fn table_widths_split_flex_room_by_weight() {
    let columns = vec![
        Column::new("ID", |_: &u8| "1".to_string()).width(ColumnWidth::Fixed(5)),
        Column::new("Product", |_: &u8| "Laptop".to_string()).width(ColumnWidth::Flex(3)),
        Column::new("Category", |_: &u8| "Electronics".to_string()).width(ColumnWidth::Flex(2)),
        Column::new("Price", |_: &u8| "$999.99".to_string()).width(ColumnWidth::Fixed(10)),
        Column::new("Stock", |_: &u8| "15".to_string()).width(ColumnWidth::Fixed(7)),
    ];
    let table = Table::<u8, ()>::new(columns);
    assert_eq!(table.compute_column_widths(40), vec![5, 8, 6, 10, 7]);
    assert_eq!(table.compute_column_widths(0), vec![0, 0, 0, 0, 0]);
}

#[test]
fn table_auto_width_counts_wide_characters() {
    let columns = vec![Column::new("Name", |r: &String| r.clone())];
    let table = Table::<String, ()>::new(columns).rows(vec!["日本語".to_string(), "ab".to_string()]);
    assert_eq!(table.compute_column_widths(40), vec![6]);
}

#[test]
fn table_moves_focus_and_reports_selection() {
    let columns = vec![Column::new("Name", |r: &String| r.clone())];
    let mut table = Table::<String, Vec<String>>::new(columns)
        .rows(vec!["a".to_string(), "b".to_string(), "c".to_string()])
        .selection_mode(SelectionMode::Multiple)
        .on_select(|e| e.selected_rows.clone());
    let r = table.handle_event(&key(KeyCode::Down));
    assert!(r.is_consumed() && messages(&r).is_empty());
    let r = table.handle_event(&key(KeyCode::Enter));
    assert_eq!(messages(&r), vec![vec!["b".to_string()]]);
    let _ = table.handle_event(&key(KeyCode::End));
    let r = table.handle_event(&key(KeyCode::Char(' ')));
    assert_eq!(messages(&r), vec![vec!["b".to_string(), "c".to_string()]]);
    let r = table.handle_event(&key(KeyCode::Char(' ')));
    assert_eq!(messages(&r), vec![vec!["b".to_string()]]);
    assert!(!table.handle_event(&key(KeyCode::Tab)).is_consumed());
}

#[test]
fn tab_badges_show_and_measure() {
    assert_eq!(TabBadge::Count(42).width(), 5);
    assert_eq!(TabBadge::Count(42).to_string(), " (42)");
    assert_eq!(TabBadge::Count(0).to_string(), " (0)");
    assert_eq!(TabBadge::Dot.width(), 2);
    assert_eq!(TabBadge::Dot.to_string(), " •");
    assert_eq!(TabBadge::Text("new".to_string()).width(), 6);
    assert_eq!(TabBadge::Text("new".to_string()).to_string(), " [new]");
}

#[test]
fn tabs_skip_disabled_tabs_both_ways() {
    let mut tabs = Tabs::<usize>::new()
        .tab(TabItem::new("One", Label::<usize>::new("1")))
        .tab(TabItem::new("Two", Label::<usize>::new("2")).disabled(true))
        .tab(TabItem::new("Three", Label::<usize>::new("3")))
        .on_change(|e| e.index);
    let r = tabs.handle_event(&key(KeyCode::Right));
    assert_eq!(messages(&r), vec![2]);
    let r = tabs.handle_event(&key(KeyCode::Left));
    assert_eq!(messages(&r), vec![2]);
    assert!(!tabs.handle_event(&key(KeyCode::Up)).is_consumed());
}

#[test]
fn tab_widths_include_badges() {
    let item = TabItem::new("Inbox", Label::<()>::new("x")).badge(TabBadge::Count(7));
    assert_eq!(item.display_width(), 9);
    assert_eq!(item.label_text(), "Inbox (7)");
    let tabs = Tabs::<()>::new().tab(item).tab(TabItem::new("Sent", Label::<()>::new("y")));
    assert_eq!(tabs.horizontal_width(), 9 + 4 + 4 + 4 + 1);
    assert_eq!(tabs.tab_bar_width(), 13);
}

#[test]
fn text_input_edits_at_the_cursor() {
    let mut input = TextInput::<String>::new().on_change(|s| s);
    let r = input.handle_event(&key(KeyCode::Char('a')));
    assert_eq!(messages(&r), vec!["a".to_string()]);
    let _ = input.handle_event(&key(KeyCode::Char('b')));
    let _ = input.handle_event(&key(KeyCode::Left));
    let r = input.handle_event(&key(KeyCode::Char('X')));
    assert_eq!(messages(&r), vec!["aXb".to_string()]);
    assert_eq!(input.cursor_position(), 2);
    let r = input.handle_event(&key(KeyCode::Backspace));
    assert_eq!(messages(&r), vec!["ab".to_string()]);
    assert_eq!(input.cursor_position(), 1);
    let _ = input.handle_event(&key(KeyCode::Home));
    let r = input.handle_event(&key(KeyCode::Backspace));
    assert!(messages(&r).is_empty());
    let r = input.handle_event(&key(KeyCode::Delete));
    assert_eq!(messages(&r), vec!["b".to_string()]);
    assert!(!input.handle_event(&ctrl(KeyCode::Char('x'))).is_consumed());
}

#[test]
fn text_input_masks_and_cuts_passwords() {
    let input = TextInput::<()>::new().variant(TextInputVariant::Password).value("secret");
    assert_eq!(input.display_text(10), "••••••");
    assert_eq!(input.display_text(3), "•••");
    assert_eq!(input.cursor_char(), ' ');
    let plain = TextInput::<()>::new().value("日本語");
    assert_eq!(plain.display_text(4), "日本");
    assert_eq!(plain.cursor_column(), 6);
}

#[test]
fn text_input_submits_on_enter_and_ignores_when_disabled() {
    let mut input = TextInput::<String>::new().value("hi").on_submit(|s| format!("sent {s}"));
    let r = input.handle_event(&key(KeyCode::Enter));
    assert_eq!(messages(&r), vec!["sent hi".to_string()]);
    let mut off = TextInput::<String>::new().disabled(true);
    assert!(!off.handle_event(&key(KeyCode::Char('a'))).is_consumed());
    assert_eq!(off.get_value(), "");
}

#[test]
fn textarea_moves_by_line_and_column() {
    let mut area = Textarea::<()>::new().value("ab\ncd");
    assert_eq!(area.cursor_position(), 5);
    assert_eq!(area.cursor_line_col(), (1, 2));
    let _ = area.handle_event(&key(KeyCode::Up));
    assert_eq!(area.cursor_position(), 2);
    let _ = area.handle_event(&key(KeyCode::Home));
    assert_eq!(area.cursor_position(), 0);
    let _ = area.handle_event(&key(KeyCode::End));
    assert_eq!(area.cursor_position(), 2);
    let _ = area.handle_event(&key(KeyCode::Down));
    assert_eq!(area.cursor_position(), 5);
    assert_eq!(area.lines(), vec!["ab".to_string(), "cd".to_string()]);
    assert_eq!(area.line_col_to_offset(1, 1), 4);
    assert_eq!(area.line_col_to_offset(0, 9), 2);
}

#[test]
fn textarea_select_all_then_type_replaces_everything() {
    let mut area = Textarea::<String>::new().value("one\ntwo").on_change(|s| s);
    let _ = area.handle_event(&ctrl(KeyCode::Char('a')));
    let r = area.handle_event(&key(KeyCode::Char('x')));
    assert_eq!(messages(&r), vec!["x".to_string()]);
    let _ = area.handle_event(&key(KeyCode::Enter));
    assert_eq!(area.get_value(), "x\n");
    let _ = area.handle_event(&ctrl(KeyCode::Char('a')));
    let r = area.handle_event(&key(KeyCode::Delete));
    assert_eq!(messages(&r), vec!["".to_string()]);
    assert_eq!(area.cursor_position(), 0);
}

#[test]
fn selection_orders_its_ends() {
    assert_eq!(Selection::new(5, 2).normalized(), (2, 5));
    assert_eq!(Selection::new(1, 4).normalized(), (1, 4));
    assert!(Selection::new(3, 3).is_empty());
}

#[test]
fn css_errors_name_the_property() {
    match parse_color("nope") {
        Err(CssError::InvalidValue { property, value }) => {
            assert_eq!(property, "color");
            assert_eq!(value, "nope");
        }
        other => panic!("unexpected {other:?}"),
    }
    assert!(matches!(parse_padding("1 2 3"), Err(CssError::InvalidValue { .. })));
    assert!(matches!(parse_css("width 20"), Err(CssError::ParseError(_))));
    let pairs = parse_css(" Width: 20 ; width: 30; color: red").unwrap();
    assert_eq!(pairs, vec![("width".to_string(), "30".to_string()), ("color".to_string(), "red".to_string())]);
    assert_eq!(parse_color(" Blue ").unwrap(), Color::Blue);
}

#[test]
fn label_width_counts_columns_not_bytes() {
    let label = Label::<()>::new("日本");
    assert_eq!(label.constraints().min_width, 4);
    let any: AnyWidget<()> = AnyWidget::from(Label::<()>::new("héllo"));
    assert_eq!(any.constraints().min_width, 5);
}

#[test]
fn code_block_finds_syntaxes_by_language() {
    let code = CodeBlock::<()>::new("fn main() {}").language("rust");
    assert_eq!(code.find_syntax(), "Rust");
    let plain = CodeBlock::<()>::new("x");
    assert_eq!(plain.find_syntax(), "Plain Text");
    assert_eq!(plain.theme_in_use(), "base16-ocean.dark");
}

#[test]
fn widget_ids_differ_with_keys() {
    let a = WidgetId::from_path_and_key(&[1, 2], None);
    let b = WidgetId::from_path_and_key(&[1, 2], Some("k"));
    assert_ne!(a, b);
    assert_eq!(a, WidgetId::from_path(&[1, 2]));
}

#[test]
fn text_reports_each_change_once() {
    let mut text = Text::new("a\nb");
    assert_eq!(text.lines(), &vec!["a".to_string(), "b".to_string()]);
    assert!(text.update());
    assert!(!text.update());
    text.replace("c\r\nd\n");
    assert!(text.update());
    assert_eq!(text.lines(), &vec!["c".to_string(), "d".to_string()]);
}

#[test]
fn tree_nodes_copy_deeply() {
    let root = SimpleTreeNode::branch(1, "Root", vec![SimpleTreeNode::leaf(2, "Leaf").with_icon("*")]);
    assert!(root.has_children());
    let kids = root.children();
    assert_eq!(kids.len(), 1);
    assert_eq!(kids[0].label(), "Leaf");
    assert_eq!(kids[0].icon(), Some("*".to_string()));
    assert!(!kids[0].has_children());
    assert!(SimpleTreeNode::leaf(3, "x").disabled(true).is_disabled());
}

#[test]
fn select_rows_and_trigger_plans() {
    let config = StyleConfig::bordered();
    let styles = DropdownStyles::from_theme(&Theme::dark());
    let item = SelectItem::new(1, "A long label");
    let row = render_item(&item, 3, 10, &config, &styles, false, true);
    assert_eq!(row.indicator, "• ");
    assert_eq!(row.label_x, config.content_padding_x + 2);
    assert_eq!(row.label, truncate_text("A long label", 10 - (row.label_x + config.content_padding_x)));
    assert_eq!(row.style, styles.selected);
    let plan = render_trigger("Pick one", true, &config, 20, 3).unwrap();
    assert_eq!(plan.indicator, '▲');
    assert_eq!(plan.indicator_x, 20 - config.content_padding_x - 1);
    assert!(render_trigger("x", false, &config, 0, 3).is_none());
    assert_eq!(truncate_text("abcdef", 4), "abc…");
}

#[test]
fn list_items_keep_their_flags() {
    let item = ListItem::new("v", "Label").disabled(true);
    assert!(item.disabled);
}

#[test]
fn list_plan_marks_selection_and_dividers() {
    let theme = Theme::dark();
    let list: List<u8, ()> = List::new(vec![
        ListItem::new(1u8, "One").with_divider(),
        ListItem::new(2u8, "Two"),
        ListItem::new(3u8, "Three"),
    ])
    .selection_mode(SelectionMode::Multiple)
    .selected(vec![1]);
    match list.render_plan(20, 4, &theme).unwrap() {
        ListPlan::Rows { rows, content_width, scrollbar } => {
            assert!(!scrollbar);
            assert_eq!(content_width, 20);
            assert_eq!(rows.len(), 3);
            assert_eq!(rows[0].indicator, "[ ] ");
            assert_eq!(rows[0].divider_y, Some(1));
            assert_eq!(rows[1].y, 2);
            assert_eq!(rows[1].indicator, "[✓] ");
            assert!(rows[1].fill);
            assert_eq!(rows[2].y, 3);
            assert_eq!(rows[2].label, "Three");
        }
        ListPlan::Message { .. } => panic!("rows expected"),
    }
    let empty: List<u8, ()> = List::new(vec![]);
    match empty.render_plan(20, 5, &theme).unwrap() {
        ListPlan::Message { x, y, message, .. } => {
            assert_eq!(message, "No items");
            assert_eq!((x, y), ((20 - 8) / 2, 2));
        }
        ListPlan::Rows { .. } => panic!("message expected"),
    }
    assert!(list.render_plan(0, 4, &theme).is_none());
}

#[test]
fn button_plan_centres_the_label() {
    let theme = Theme::dark();
    let b = Button::<()>::new("OK");
    let plan = b.render_plan(10, 3, &theme).unwrap();
    assert!(plan.filled && plan.border.is_none());
    assert_eq!((plan.text_x, plan.text_y), (4, 1));
    let outlined = Button::<()>::new("Cancel").variant(ButtonVariant::Outlined);
    let plan = outlined.render_plan(10, 3, &theme).unwrap();
    assert!(!plan.filled && plan.border.is_some());
    assert_eq!(plan.text_x, 2);
    assert!(b.render_plan(10, 0, &theme).is_none());
}

#[test]
fn code_lines_show_marks_and_numbers() {
    let code = CodeBlock::<()>::new("a\nb\nc")
        .show_line_numbers(true)
        .start_line(9)
        .mark_line(9, LineMarker::Added)
        .mark_line(10, LineMarker::Deleted)
        .highlight_line(11);
    assert_eq!(code.line_number_width(), 5);
    assert_eq!(code.line_number_label(9), " 9 │");
    assert_eq!(code.line_number_label(11), "11 │");
    assert_eq!(code.line_decoration(9), (Some(Color::Rgb(0, 64, 0)), '+', Some(Color::Green)));
    assert_eq!(code.line_decoration(10), (Some(Color::Rgb(64, 0, 0)), '-', Some(Color::Red)));
    assert_eq!(code.line_decoration(11), (Some(Color::Rgb(40, 40, 40)), ' ', None));
    assert_eq!(code.line_decoration(12), (None, ' ', None));
}

#[test]
fn group_plans_lay_options_out() {
    let theme = Theme::dark();
    let g = CheckboxGroup::<()>::new(&["ab", "", "cdef"]).direction(CheckboxDirection::Horizontal);
    let plans = g.render_plan(30, 1, &theme);
    assert_eq!(plans.len(), 3);
    assert_eq!((plans[0].x, plans[0].label_x), (0, 4));
    assert_eq!(plans[1].x, 8);
    assert!(!plans[1].show_label);
    assert_eq!(plans[2].x, 14);
    let narrow = g.render_plan(12, 1, &theme);
    assert_eq!(narrow.len(), 2);
    let r = RadioGroup::<()>::new(&["x", "y", "z"]).selected(1).direction(RadioDirection::Vertical);
    let plans = r.render_plan(10, 2, &theme);
    assert_eq!(plans.len(), 2);
    assert!(!plans[0].marked && plans[1].marked);
    assert_eq!(plans[1].y, 1);
    assert_eq!(plans[1].mark_style.fg_color, Some(theme.colors.success));
    assert!(r.render_plan(0, 2, &theme).is_empty());
}

#[test]
fn code_lines_are_highlighted_on_their_backgrounds() {
    let code = CodeBlock::<()>::new("fn main() {\n    let x = 1;\r\n}")
        .language("rust")
        .start_line(1)
        .mark_line(2, LineMarker::Added);
    let lines = code.highlighted_lines().expect("rust and the default theme exist");
    assert_eq!(lines.len(), 3);
    let texts: Vec<String> = lines.iter().map(|l| l.iter().map(|(_, t)| t.as_str()).collect::<String>()).collect();
    assert_eq!(texts, vec!["fn main() {".to_string(), "    let x = 1;".to_string(), "}".to_string()]);
    // Line 2 is marked added: every piece on the green background.
    assert!(lines[1].iter().all(|(s, _)| s.bg_color == Some(Color::Rgb(0, 64, 0))));
    // Other lines keep the theme's own background (none).
    assert!(lines[0].iter().all(|(s, _)| s.bg_color.is_none()));
    // Keywords are colored by the theme.
    assert!(lines[0].iter().all(|(s, _)| s.fg_color.is_some()));
    let empty = CodeBlock::<()>::new("").highlighted_lines().unwrap();
    assert!(empty.is_empty());
}

#[test]
fn code_plan_places_gutter_marker_code_and_fill() {
    let code = CodeBlock::<()>::new("ab\ncd\nef")
        .show_line_numbers(true)
        .start_line(9)
        .mark_line(10, LineMarker::Added);
    assert!(code.render_plan(0, 5).unwrap().is_empty());
    let rows = code.render_plan(20, 2).expect("plain text and the default theme exist");
    assert_eq!(rows.len(), 2);
    let first = &rows[0];
    assert_eq!(first.y, 0);
    let (g, gs) = first.gutter.clone().unwrap();
    assert_eq!(g, " 9 │");
    assert_eq!(gs.fg_color, Some(Color::Rgb(100, 100, 100)));
    assert_eq!(first.marker.as_ref().map(|m| (m.0, m.1)), Some((5, ' ')));
    assert_eq!(first.pieces[0].x, 7);
    let drawn: String = first.pieces.iter().map(|p| p.text.as_str()).collect();
    assert_eq!(drawn, "ab");
    assert!(first.fill.is_none());
    let second = &rows[1];
    assert_eq!(second.marker.as_ref().map(|m| m.1), Some('+'));
    assert_eq!(second.marker.as_ref().unwrap().2.fg_color, Some(Color::Green));
    let (fx, fw, fs) = second.fill.clone().unwrap();
    assert_eq!((fx, fw), (9, 11));
    assert_eq!(fs.bg_color, Some(Color::Rgb(0, 64, 0)));
    let bare = CodeBlock::<()>::new("xy").render_plan(10, 3).unwrap();
    assert!(bare[0].gutter.is_none() && bare[0].marker.is_none());
    assert_eq!(bare[0].pieces[0].x, 0);
}

#[test]
fn default_syntaxes_have_distinct_names() {
    // A block looks its syntax up again by the name its extension gave; with
    // distinct names that finds the same syntax.
    let ss = syntect::parsing::SyntaxSet::load_defaults_newlines();
    let mut names: Vec<&str> = ss.syntaxes().iter().map(|s| s.name.as_str()).collect();
    let total = names.len();
    names.sort();
    names.dedup();
    assert_eq!(names.len(), total);
}

#[test]
fn list_with_no_rows_shown_still_moves() {
    let mut list: List<u8, ()> =
        List::new(vec![ListItem::new(1u8, "One"), ListItem::new(2u8, "Two"), ListItem::new(3u8, "Three")]).viewport_height(0);
    let _ = list.handle_event(&Event::Key(KeyEvent::new(KeyCode::Down)));
    let _ = list.handle_event(&Event::Key(KeyEvent::new(KeyCode::Down)));
    assert_eq!(list.get_scroll_offset(), 0);
}

#[test]
fn highlighted_pieces_are_styled_on_their_line_background() {
    let code = CodeBlock::<()>::new("ab\nx").start_line(1).mark_line(2, LineMarker::Added);
    let lines = vec![
        ("ab\n".to_string(), Some(vec![(1u8, 2u8, 3u8, true, false, false, "ab\n".to_string())])),
        ("x".to_string(), None),
    ];
    let out = code.style_highlighted(&lines);
    assert_eq!(out.len(), 2);
    assert_eq!(out[0].len(), 1);
    assert_eq!(out[0][0].1, "ab");
    assert_eq!(out[0][0].0.fg_color, Some(Color::Rgb(1, 2, 3)));
    assert!(out[0][0].0.modifiers.contains_bold());
    assert!(out[0][0].0.bg_color.is_none());
    assert_eq!(out[1][0].1, "x");
    assert_eq!(out[1][0].0.bg_color, Some(Color::Rgb(0, 64, 0)));
    assert!(out[1][0].0.fg_color.is_none());
}
