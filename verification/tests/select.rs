use tui::select::{select, Select, SelectItem};

#[test]
fn test_select_creation() {
    let items = vec![SelectItem::new("a", "Option A"), SelectItem::new("b", "Option B")];

    let select: Select<&str, ()> = Select::new(items);
    assert_eq!(select.items().len(), 2);
    assert_eq!(select.is_opened(), false);
    assert_eq!(select.selected_index(), None);
}

#[test]
fn test_select_fluent_api() {
    let select: Select<&str, ()> = select().item("a", "Option A").item("b", "Option B").item("c", "Option C");

    assert_eq!(select.items().len(), 3);
}

#[test]
fn test_select_toggle_dropdown() {
    let mut select: Select<&str, ()> = select().item("a", "Option A").item("b", "Option B");

    assert_eq!(select.is_opened(), false);
    select.toggle_dropdown();
    assert_eq!(select.is_opened(), true);
    select.toggle_dropdown();
    assert_eq!(select.is_opened(), false);
}

#[test]
fn test_select_keyboard_navigation() {
    let mut select: Select<&str, ()> = select().item("a", "Option A").item("b", "Option B").item("c", "Option C");

    select.toggle_dropdown();
    assert_eq!(select.focused_index(), Some(0));

    select.focus_next();
    assert_eq!(select.focused_index(), Some(1));

    select.focus_next();
    assert_eq!(select.focused_index(), Some(2));

    select.focus_previous();
    assert_eq!(select.focused_index(), Some(1));
}

#[test]
fn test_select_disabled_items() {
    let mut select: Select<&str, ()> =
        select().item("a", "Option A").item_disabled("b", "Option B (disabled)").item("c", "Option C");

    select.toggle_dropdown();
    assert_eq!(select.focused_index(), Some(0));

    select.focus_next();
    assert_eq!(select.focused_index(), Some(2));
}

#[test]
fn select_with_no_dropdown_rows_still_moves() {
    let mut select: Select<&str, ()> = select().item("a", "A").item("b", "B").dropdown_height(0);
    select.toggle_dropdown();
    select.focus_next();
    assert_eq!(select.focused_index(), Some(1));
}
