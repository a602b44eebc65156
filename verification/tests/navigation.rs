use tui::navigation::SelectableNavigation;

#[test]
fn test_navigation_next() {
    let mut nav = SelectableNavigation::new(5, 3);
    nav.set_focused_index(Some(0));

    nav.focus_next(|_: usize| false, 5);
    assert_eq!(nav.focused_index(), Some(1));

    nav.focus_next(|_: usize| false, 5);
    assert_eq!(nav.focused_index(), Some(2));
}

#[test]
fn test_navigation_skip_disabled() {
    let mut nav = SelectableNavigation::new(5, 3);
    nav.set_focused_index(Some(0));

    nav.focus_next(|idx: usize| idx == 1, 5);
    assert_eq!(nav.focused_index(), Some(2));
}

#[test]
fn test_navigation_previous() {
    let mut nav = SelectableNavigation::new(5, 3);
    nav.set_focused_index(Some(2));

    nav.focus_previous(|_: usize| false, 5);
    assert_eq!(nav.focused_index(), Some(1));

    nav.focus_previous(|_: usize| false, 5);
    assert_eq!(nav.focused_index(), Some(0));
}

#[test]
fn test_navigation_first_last() {
    let mut nav = SelectableNavigation::new(5, 3);

    nav.focus_first(|_: usize| false, 5);
    assert_eq!(nav.focused_index(), Some(0));

    nav.focus_last(|_: usize| false, 5);
    assert_eq!(nav.focused_index(), Some(4));
}

#[test]
fn test_ensure_visible() {
    let mut nav = SelectableNavigation::new(10, 3);

    nav.set_focused_index(Some(5));
    nav.ensure_visible(10);

    assert!(nav.is_visible(5));
}

#[test]
fn test_visible_range() {
    let nav = SelectableNavigation::new(10, 3);
    let (start, end) = nav.visible_range(10);

    assert_eq!(start, 0);
    assert_eq!(end, 3);
}

#[test]
fn zero_row_viewport_keeps_its_offset() {
    let mut nav = SelectableNavigation::new(5, 0);
    nav.set_focused_index(Some(0));
    nav.focus_next(|_: usize| false, 5);
    assert_eq!(nav.focused_index(), Some(1));
    assert_eq!(nav.scroll_offset(), 0);
    nav.page_down(|_: usize| false, 5);
    assert_eq!(nav.focused_index(), Some(2));
    assert_eq!(nav.scroll_offset(), 0);
    nav.set_scroll_offset(3);
    nav.focus_previous(|_: usize| false, 5);
    assert_eq!(nav.focused_index(), Some(1));
    assert_eq!(nav.scroll_offset(), 1);
}
