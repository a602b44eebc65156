use tui::event::{Event, KeyCode, KeyEvent, Widget};
use tui::table::{Column, ColumnWidth, Table};

#[derive(Clone)]
struct Item;

#[test]
fn flex_columns_reserve_separator_space() {
    let columns = vec![
        Column::new("ID", |_: &Item| "1".to_string()).width(ColumnWidth::Fixed(5)),
        Column::new("Product", |_: &Item| "Laptop".to_string()).width(ColumnWidth::Flex(3)),
        Column::new("Category", |_: &Item| "Electronics".to_string()).width(ColumnWidth::Flex(2)),
        Column::new("Price", |_: &Item| "$999.99".to_string()).width(ColumnWidth::Fixed(10)),
        Column::new("Stock", |_: &Item| "15".to_string()).width(ColumnWidth::Fixed(7)),
    ];

    let table = Table::<Item, ()>::new(columns);
    let available_width = 40;
    let widths = table.compute_column_widths(available_width);
    let total_used = widths.iter().sum::<u16>() + widths.len().saturating_sub(1) as u16;

    assert!(total_used <= available_width, "computed widths {widths:?} exceed available width {available_width}");
}

#[test]
fn table_with_no_rows_shown_still_moves() {
    let columns = vec![Column::new("ID", |_: &Item| "1".to_string())];
    let mut table = Table::<Item, ()>::new(columns).rows(vec![Item, Item, Item]).viewport_height(0);
    let _ = table.handle_event(&Event::Key(KeyEvent::new(KeyCode::Down)));
    let _ = table.handle_event(&Event::Key(KeyEvent::new(KeyCode::Down)));
    let _ = table.handle_event(&Event::Key(KeyEvent::new(KeyCode::PageDown)));
}
