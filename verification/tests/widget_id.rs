use std::collections::HashMap;
use tui::widget_id::WidgetId;

#[test]
fn test_widget_id_stability() {
    let id1 = WidgetId::from_path(&[0]);
    let id2 = WidgetId::from_path(&[0]);

    assert_eq!(id1, id2);
    assert_eq!(id1.id(), id2.id());
}

#[test]
fn test_widget_id_with_key_stability() {
    let id1 = WidgetId::from_path_and_key(&[0], Some("item-1"));
    let id2 = WidgetId::from_path_and_key(&[0], Some("item-1"));

    assert_eq!(id1, id2);
    assert_eq!(id1.id(), id2.id());

    let id3 = WidgetId::from_path_and_key(&[0], Some("item-2"));
    assert_ne!(id1, id3);
    assert_ne!(id1.id(), id3.id());
}

#[test]
fn test_widget_id_uniqueness_across_paths() {
    let id1 = WidgetId::from_path(&[0]);
    let id2 = WidgetId::from_path(&[1]);

    assert_ne!(id1, id2);
    assert_ne!(id1.id(), id2.id());
}

#[test]
fn test_widget_id_copy() {
    let id1 = WidgetId::from_path(&[0, 1]);
    let id2 = id1;

    assert_eq!(id1, id2);
    assert_eq!(id1.id(), id2.id());
}

#[test]
fn test_hash_performance() {
    let mut map = HashMap::new();
    let id1 = WidgetId::from_path(&[0, 1, 2, 3, 4]);
    let id2 = WidgetId::from_path(&[0, 1, 2, 3, 4]);

    map.insert(id1, "value");

    assert_eq!(map.get(&id2), Some(&"value"));
}

#[test]
fn test_focus_preservation_simulation() {
    let build_widget_id = |path: &[usize]| WidgetId::from_path(path);

    let focus_id_render1 = build_widget_id(&[0, 2]);
    let focus_id_render2 = build_widget_id(&[0, 2]);

    assert_eq!(focus_id_render1, focus_id_render2);
}

#[test]
fn test_deterministic_id_generation() {
    let path = &[1, 2, 3];
    let id1 = WidgetId::compute_stable_id(path, None);
    let id2 = WidgetId::compute_stable_id(path, None);
    assert_eq!(id1, id2);

    let id3 = WidgetId::compute_stable_id(path, Some("key"));
    let id4 = WidgetId::compute_stable_id(path, Some("key"));
    assert_eq!(id3, id4);

    assert_ne!(id1, id3);
}

#[test]
fn test_size_of_widget_id() {
    assert_eq!(std::mem::size_of::<WidgetId>(), 8);
}
