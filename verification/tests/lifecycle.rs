use tui::geometry::Rect;
use tui::lifecycle::{ProfilingData, WidgetLifecycle};

struct TestWidget {
    name: String,
}

impl<M> WidgetLifecycle<M> for TestWidget {
    fn widget_name(&self) -> Option<&str> {
        Some(&self.name)
    }
}

#[test]
fn test_widget_name() {
    let widget = TestWidget { name: "test_widget".to_string() };
    assert_eq!(<TestWidget as WidgetLifecycle<()>>::widget_name(&widget), Some("test_widget"));
}

#[test]
fn test_default_hooks() {
    let widget = TestWidget { name: "test".to_string() };

    let area = Rect::new(0, 0, 10, 10);

    <TestWidget as WidgetLifecycle<()>>::on_before_render(&widget, &area);
    <TestWidget as WidgetLifecycle<()>>::on_after_render(&widget, &area);
    <TestWidget as WidgetLifecycle<()>>::on_area_changed(&widget, None, &area);
}

#[test]
fn test_profiling_data() {
    let mut data = ProfilingData::new();
    data.render_count = 5;
    data.add_metric("custom", "value");

    assert_eq!(data.render_count, 5);
    assert_eq!(data.custom_metrics.len(), 1);
    assert_eq!(data.custom_metrics[0].0, "custom");
}
