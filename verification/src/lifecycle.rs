//! Optional widget lifecycle hooks and profiling data.

use vstd::prelude::*;
use crate::geometry::Rect;
use crate::text::owned;

verus! {

/// Lifecycle hooks a widget may implement; every hook has a default that does
/// nothing.
pub trait WidgetLifecycle<M> {
    /// The widget's name for debugging and logging; none by default.
    fn widget_name(&self) -> Option<&str> {
        None
    }

    /// The widget's kind, for debugging; the generic text `widget` unless the
    /// widget names its kind.
    fn widget_type(&self) -> &str {
        "widget"
    }

    /// Called before the widget is drawn in `area`.
    fn on_before_render(&self, _area: &Rect) {
    }

    /// Called after the widget is drawn in `area`.
    fn on_after_render(&self, _area: &Rect) {
    }

    /// Called when the widget's area changes.
    fn on_area_changed(&self, _old_area: Option<&Rect>, _new_area: &Rect) {
    }

    /// Debugging information; the type name by default.
    fn debug_info(&self) -> String {
        owned(self.widget_type())
    }

    /// Profiling data; none by default.
    fn profiling_metadata(&self) -> Option<ProfilingData> {
        None
    }
}

/// Timing and count data of a widget.
#[derive(Debug, Clone)]
pub struct ProfilingData {
    /// Last render duration in microseconds
    pub last_render_micros: Option<u64>,
    /// Average render duration over recent frames
    pub avg_render_micros: Option<u64>,
    /// Number of times the widget has been rendered
    pub render_count: usize,
    /// Last event handling duration in microseconds
    pub last_event_micros: Option<u64>,
    /// Total number of events handled
    pub event_count: usize,
    /// Custom metrics (widget-specific)
    pub custom_metrics: Vec<(String, String)>,
}

impl ProfilingData {
    /// Empty profiling data.
    pub fn new() -> (d: Self)
        ensures
            d.last_render_micros.is_none(),
            d.avg_render_micros.is_none(),
            d.render_count == 0,
            d.last_event_micros.is_none(),
            d.event_count == 0,
            d.custom_metrics@.len() == 0,
    {
        ProfilingData {
            last_render_micros: None,
            avg_render_micros: None,
            render_count: 0,
            last_event_micros: None,
            event_count: 0,
            custom_metrics: Vec::new(),
        }
    }

    /// Adds a custom metric at the end.
    pub fn add_metric(&mut self, key: &str, value: &str)
        ensures
            final(self).custom_metrics@.len() == old(self).custom_metrics@.len() + 1,
            final(self).custom_metrics@.take(old(self).custom_metrics@.len() as int) == old(self).custom_metrics@,
            final(self).custom_metrics@.last().0@ == key@,
            final(self).custom_metrics@.last().1@ == value@,
            final(self).render_count == old(self).render_count,
            final(self).event_count == old(self).event_count,
            final(self).last_render_micros == old(self).last_render_micros,
            final(self).avg_render_micros == old(self).avg_render_micros,
            final(self).last_event_micros == old(self).last_event_micros,
    {
        self.custom_metrics.push((owned(key), owned(value)));
    }
}

/// Scoped profiler; measuring is off, so it holds nothing.
#[derive(Debug)]
pub struct ScopedProfiler;

impl ScopedProfiler {
    pub fn new(_name: &'static str) -> (p: Self) {
        ScopedProfiler
    }
}

} // verus!
