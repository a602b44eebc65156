use tui::event::{Event, EventResult, KeyCode, KeyEvent, MouseButton, MouseEvent, MouseEventKind, Widget};
use tui::style::Color;
use tui::theme::Theme;
use tui::tree::SimpleTreeNode;
use tui::tree_view::{tree_view, TreeView};

#[derive(Debug, Clone, PartialEq)]
enum Msg {
    Selected(String, Vec<usize>, Option<usize>),
    Toggled(Vec<usize>, bool, Vec<Vec<usize>>, Option<usize>),
}

fn key(code: KeyCode) -> Event {
    Event::Key(KeyEvent::new(code))
}

fn click() -> Event {
    Event::Mouse(MouseEvent { kind: MouseEventKind::Down(MouseButton::Left), column: 0, row: 0 })
}

fn sample() -> TreeView<SimpleTreeNode<u32>, Msg> {
    let a = SimpleTreeNode::branch(
        1,
        "A",
        vec![
            SimpleTreeNode::leaf(2, "A1"),
            SimpleTreeNode::leaf(3, "A2").disabled(true),
            SimpleTreeNode::leaf(4, "A3"),
        ],
    );
    let b = SimpleTreeNode::leaf(5, "B");
    TreeView::new(vec![a, b])
        .on_select(|e| Msg::Selected(e.node.label.clone(), e.path.clone(), e.selected_index))
        .on_expand(|e| Msg::Toggled(e.path.clone(), e.expanded, e.expanded_paths.clone(), e.selected_index))
}

fn consumed(r: EventResult<Msg>) -> Vec<Msg> {
    match r {
        EventResult::Consumed(v) => v,
        EventResult::Ignored => panic!("event was ignored"),
    }
}

fn chosen(t: &mut TreeView<SimpleTreeNode<u32>, Msg>) -> Msg {
    let v = consumed(t.handle_event(&click()));
    assert_eq!(v.len(), 1);
    v[0].clone()
}

#[test]
fn tree_starts_on_first_enabled_root() {
    let mut t = sample();
    assert_eq!(chosen(&mut t), Msg::Selected("A".to_string(), vec![0], Some(0)));
}

#[test]
fn tree_enter_expands_then_reports() {
    let mut t = sample();
    let v = consumed(t.handle_event(&key(KeyCode::Enter)));
    assert_eq!(
        v,
        vec![
            Msg::Toggled(vec![0], true, vec![vec![0]], Some(0)),
            Msg::Selected("A".to_string(), vec![0], Some(0)),
        ]
    );
    // A, A1, A2, A3, B are shown now.
    assert!(consumed(t.handle_event(&key(KeyCode::Down))).is_empty());
    assert_eq!(chosen(&mut t), Msg::Selected("A1".to_string(), vec![0, 0], Some(1)));
    // A2 is disabled and skipped.
    t.handle_event(&key(KeyCode::Down));
    assert_eq!(chosen(&mut t), Msg::Selected("A3".to_string(), vec![0, 2], Some(3)));
    t.handle_event(&key(KeyCode::Down));
    assert_eq!(chosen(&mut t), Msg::Selected("B".to_string(), vec![1], Some(4)));
    t.handle_event(&key(KeyCode::Up));
    t.handle_event(&key(KeyCode::Up));
    assert_eq!(chosen(&mut t), Msg::Selected("A1".to_string(), vec![0, 0], Some(1)));
}

#[test]
fn tree_side_arrows_walk_the_levels() {
    let mut t = sample();
    let v = consumed(t.handle_event(&key(KeyCode::Right)));
    assert_eq!(v, vec![Msg::Toggled(vec![0], true, vec![vec![0]], Some(0))]);
    // Right on an expanded branch steps into its first child.
    assert!(consumed(t.handle_event(&key(KeyCode::Right))).is_empty());
    assert_eq!(chosen(&mut t), Msg::Selected("A1".to_string(), vec![0, 0], Some(1)));
    // Left on a leaf steps out to the parent.
    assert!(consumed(t.handle_event(&key(KeyCode::Left))).is_empty());
    assert_eq!(chosen(&mut t), Msg::Selected("A".to_string(), vec![0], Some(0)));
    // Left on an expanded branch collapses it.
    let v = consumed(t.handle_event(&key(KeyCode::Left)));
    assert_eq!(v, vec![Msg::Toggled(vec![0], false, vec![], Some(0))]);
    t.handle_event(&key(KeyCode::Down));
    assert_eq!(chosen(&mut t), Msg::Selected("B".to_string(), vec![1], Some(1)));
    // Right on a leaf does nothing.
    assert!(consumed(t.handle_event(&key(KeyCode::Right))).is_empty());
    assert_eq!(chosen(&mut t), Msg::Selected("B".to_string(), vec![1], Some(1)));
}

#[test]
fn tree_expand_twice_restores() {
    let mut t = sample();
    t.handle_event(&key(KeyCode::Enter));
    let v = consumed(t.handle_event(&key(KeyCode::Char(' '))));
    assert_eq!(
        v,
        vec![
            Msg::Toggled(vec![0], false, vec![], Some(0)),
            Msg::Selected("A".to_string(), vec![0], Some(0)),
        ]
    );
    t.handle_event(&key(KeyCode::End));
    assert_eq!(chosen(&mut t), Msg::Selected("B".to_string(), vec![1], Some(1)));
}

#[test]
fn tree_home_end_and_ignored_keys() {
    let mut t = sample().default_expanded(true);
    t.handle_event(&key(KeyCode::End));
    assert_eq!(chosen(&mut t), Msg::Selected("B".to_string(), vec![1], Some(4)));
    t.handle_event(&key(KeyCode::Home));
    assert_eq!(chosen(&mut t), Msg::Selected("A".to_string(), vec![0], Some(0)));
    assert!(matches!(t.handle_event(&key(KeyCode::Char('x'))), EventResult::Ignored));
    assert!(matches!(t.handle_event(&key(KeyCode::Tab)), EventResult::Ignored));
}

#[test]
fn tree_expanded_paths_builder() {
    let mut t = sample().expanded_paths(vec![vec![0], vec![0]]);
    t.handle_event(&key(KeyCode::End));
    assert_eq!(chosen(&mut t), Msg::Selected("B".to_string(), vec![1], Some(4)));
    let v = consumed(t.handle_event(&key(KeyCode::Home)));
    assert!(v.is_empty());
    let v = consumed(t.handle_event(&key(KeyCode::Left)));
    assert_eq!(v, vec![Msg::Toggled(vec![0], false, vec![], Some(0))]);
}

#[test]
fn tree_constraints_exact() {
    let t = sample();
    let c = t.constraints();
    assert_eq!(c.min_width, 20);
    assert_eq!(c.max_width, Some(20));
    assert_eq!(c.min_height, 3);
    assert_eq!(c.max_height, Some(3));

    // depth 1 * 2 + marker 2 + icon "@" 1 + space 1 + 22 label cells = 28.
    let leaf = SimpleTreeNode::leaf(2u32, "a label that is long!!").with_icon("@");
    let root = SimpleTreeNode::branch(1u32, "r", vec![leaf]);
    let t: TreeView<SimpleTreeNode<u32>, ()> = TreeView::new(vec![root]).default_expanded(true);
    let c = t.constraints();
    assert_eq!(c.min_width, 28);
    assert_eq!(c.min_height, 3);

    // Twelve rows in a viewport of four: scroll bar adds two, height four.
    let kids: Vec<SimpleTreeNode<u32>> = (0..11).map(|i| SimpleTreeNode::leaf(i, "abcdefghijklmnopqrst")).collect();
    let root = SimpleTreeNode::branch(99u32, "r", kids);
    let t: TreeView<SimpleTreeNode<u32>, ()> =
        TreeView::new(vec![root]).default_expanded(true).viewport_height(4);
    let c = t.constraints();
    assert_eq!(c.min_width, 2 + 2 + 20 + 2);
    assert_eq!(c.min_height, 4);

    let t: TreeView<SimpleTreeNode<u32>, ()> = tree_view();
    let c = t.constraints();
    assert_eq!(c.min_width, 20);
    assert_eq!(c.min_height, 3);
}

#[test]
fn tree_focus_rules() {
    let t = sample();
    assert!(t.focusable());
    let all_off: TreeView<SimpleTreeNode<u32>, ()> =
        TreeView::new(vec![SimpleTreeNode::leaf(1, "x").disabled(true)]);
    assert!(!all_off.focusable());
    let empty: TreeView<SimpleTreeNode<u32>, ()> = tree_view();
    assert!(!empty.focusable());

    let mut t = sample().selected_index(None);
    assert!(consumed(t.handle_event(&click())).is_empty());
    t.set_focused(true);
    assert!(t.is_focused());
    assert_eq!(chosen(&mut t), Msg::Selected("A".to_string(), vec![0], Some(0)));
    t.set_focused(false);
    assert!(!t.is_focused());
}

#[test]
fn tree_draw_helpers() {
    let t = sample().default_expanded(true);
    assert_eq!(t.get_expand_icon(0), "▼ ");
    assert_eq!(t.get_expand_icon(1), "  ");
    let t2 = sample();
    assert_eq!(t2.get_expand_icon(0), "▶ ");
    assert_eq!(t.get_indent(0), "");
    assert_eq!(t.get_indent(3), "      ");

    let theme = Theme::dark();
    let styles = t.get_tree_styles(&theme);
    assert_eq!(styles.normal.fg_color, Some(theme.colors.text));
    assert_eq!(styles.selected.bg_color, Some(theme.colors.primary));
    assert_eq!(styles.focused.bg_color, Some(theme.colors.focus_background));
    assert_eq!(styles.disabled.fg_color, Some(theme.colors.text_muted));
    let custom = t2.selected_style(tui::style::Style::default().fg(Color::Red));
    let styles = custom.get_tree_styles(&theme);
    assert_eq!(styles.selected.fg_color, Some(Color::Red));
    assert_eq!(styles.selected.bg_color, Some(theme.colors.primary));
    let s = custom.select_node_style(&styles, true, true);
    assert_eq!(s.fg_color, Some(theme.colors.text_muted));
    let s = custom.select_node_style(&styles, false, true);
    assert_eq!(s.fg_color, Some(Color::Red));
    let s = custom.select_node_style(&styles, false, false);
    assert_eq!(s.fg_color, Some(theme.colors.text));
}

#[test]
fn tree_with_no_rows_shown_still_moves() {
    let kids: Vec<SimpleTreeNode<u32>> = (0..3).map(|i| SimpleTreeNode::leaf(i, "x")).collect();
    let mut t: TreeView<SimpleTreeNode<u32>, ()> =
        TreeView::new(vec![SimpleTreeNode::branch(9u32, "r", kids)]).default_expanded(true).viewport_height(0);
    let _ = t.handle_event(&Event::Key(KeyEvent::new(KeyCode::Down)));
    let _ = t.handle_event(&Event::Key(KeyEvent::new(KeyCode::Down)));
    let _ = t.handle_event(&Event::Key(KeyEvent::new(KeyCode::PageDown)));
}
