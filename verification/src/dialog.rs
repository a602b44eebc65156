//! A dialog: content shown centered over a background widget, trapping focus
//! and closing on Esc.

use vstd::prelude::*;
use crate::event::{Event, EventResult, KeyCode, Widget};
use crate::geometry::Rect;
use crate::handler::{handler_ready, Handler};
use crate::layout::{fill_view, Constraints};
use crate::widget_id::WidgetId;

verus! {

/// How big a dialog is, relative to the area it covers or absolute.
#[derive(Debug, Clone, Copy, PartialEq, Eq, Structural)]
pub enum DialogSize {
    /// 30% of the area, at least 30 by 10
    Small,
    /// 50% of the area, at least 50 by 15
    Medium,
    /// 70% of the area, at least 70 by 20
    Large,
    /// Exactly this size
    Custom { width: u16, height: u16 },
}

impl Default for DialogSize {
    fn default() -> (s: Self)
        ensures
            s == DialogSize::Medium,
    {
        DialogSize::Medium
    }
}

/// What the buttons of the ready-made dialogs report.
#[derive(Debug, Clone, PartialEq, Eq, Structural)]
pub enum DialogMessage {
    Confirmed,
    Cancelled,
    Closed,
}

/// `v`, raised to at least `lo`, then cut to at most `hi`.
pub open spec fn clamp_to(v: int, lo: int, hi: int) -> int {
    let raised = if v > lo {
        v
    } else {
        lo
    };
    if raised < hi {
        raised
    } else {
        hi
    }
}

/// The dialog's width and height in an area `w` by `h`.
pub open spec fn dialog_dimensions(size: DialogSize, w: u16, h: u16) -> (int, int) {
    match size {
        DialogSize::Small => (clamp_to(w * 3 / 10, 30, w as int), clamp_to(h * 3 / 10, 10, h as int)),
        DialogSize::Medium => (clamp_to((w / 2) as int, 50, w as int), clamp_to((h / 2) as int, 15, h as int)),
        DialogSize::Large => (clamp_to(w * 7 / 10, 70, w as int), clamp_to(h * 7 / 10, 20, h as int)),
        DialogSize::Custom { width, height } => (if width < w {
            width as int
        } else {
            w as int
        }, if height < h {
            height as int
        } else {
            h as int
        }),
    }
}

/// `v` raised to `lo` and cut to `hi`.
fn clamp16(v: u32, lo: u32, hi: u16) -> (r: u16)
    ensures
        r == clamp_to(v as int, lo as int, hi as int),
{
    let raised = if v > lo {
        v
    } else {
        lo
    };
    if raised < hi as u32 {
        raised as u16
    } else {
        hi
    }
}

/// A modal dialog over a background.
#[verifier::reject_recursive_types(M)]
pub struct Dialog<M = ()> {
    background: Box<dyn Widget<M>>,
    content: Box<dyn Widget<M>>,
    size: DialogSize,
    focused: bool,
    on_close: Option<Box<dyn Handler<(), M>>>,
}

impl<M> Dialog<M> {
    #[verifier::type_invariant]
    spec fn inv(&self) -> bool {
        handler_ready(self.on_close)
    }

    pub closed spec fn dialog_size(&self) -> DialogSize {
        self.size
    }

    pub closed spec fn has_focus(&self) -> bool {
        self.focused
    }

    pub closed spec fn close_handler(&self) -> Option<Box<dyn Handler<(), M>>> {
        self.on_close
    }

    /// Whether the widget shown in the dialog passes over `event` (see
    /// `Widget::passes_over`).
    pub closed spec fn content_passes_over(&self, event: Event) -> bool {
        self.content.passes_over(event)
    }

    /// What the dialog answers when its content has handled an event that is
    /// not Escape: the content's messages, or none when it ignored the event;
    /// either way the event is consumed, so nothing behind the dialog sees it.
    pub fn after_content(result: EventResult<M>) -> (r: EventResult<M>)
        ensures
            r matches EventResult::Consumed(v) && match result {
                EventResult::Consumed(w) => v == w,
                EventResult::Ignored => v@.len() == 0,
            },
    {
        match result {
            EventResult::Consumed(messages) => EventResult::Consumed(messages),
            EventResult::Ignored => EventResult::Consumed(Vec::new()),
        }
    }

    /// A medium dialog of `content` over `background`, without close callback.
    pub fn new<B: Widget<M> + 'static, C: Widget<M> + 'static>(background: B, content: C) -> (d: Self)
        ensures
            d.dialog_size() == DialogSize::Medium,
            !d.has_focus(),
            d.close_handler().is_none(),
    {
        Dialog {
            background: Box::new(background),
            content: Box::new(content),
            size: DialogSize::Medium,
            focused: false,
            on_close: None,
        }
    }

    pub fn size(self, size: DialogSize) -> (d: Self)
        ensures
            d.dialog_size() == size,
            d.has_focus() == self.has_focus(),
            d.close_handler() == self.close_handler(),
    {
        proof { use_type_invariant(&self); }
        Dialog { size, ..self }
    }

    /// Sets the callback whose message Esc gives.
    pub fn on_close<F: Fn() -> M + 'static>(self, handler: F) -> (d: Self)
        requires
            call_requires(handler, ()),
        ensures
            d.close_handler().is_some(),
            forall|m: M| d.close_handler().unwrap().gives((), m) == call_ensures(handler, (), m),
            d.dialog_size() == self.dialog_size(),
            d.has_focus() == self.has_focus(),
    {
        let h: Box<dyn Handler<(), M>> = Box::new(handler);
        Dialog { background: self.background, content: self.content, size: self.size, focused: self.focused, on_close: Some(h) }
    }

    /// The dialog's width and height in an area `available_width` by
    /// `available_height`: a share of it with a minimum, never more than it.
    pub fn get_dimensions(&self, available_width: u16, available_height: u16) -> (r: (u16, u16))
        ensures
            r.0 == dialog_dimensions(self.dialog_size(), available_width, available_height).0,
            r.1 == dialog_dimensions(self.dialog_size(), available_width, available_height).1,
    {
        let w = available_width as u32;
        let h = available_height as u32;
        match self.size {
            DialogSize::Small => (clamp16(w * 3 / 10, 30, available_width), clamp16(h * 3 / 10, 10, available_height)),
            DialogSize::Medium => (clamp16(w / 2, 50, available_width), clamp16(h / 2, 15, available_height)),
            DialogSize::Large => (clamp16(w * 7 / 10, 70, available_width), clamp16(h * 7 / 10, 20, available_height)),
            DialogSize::Custom { width, height } => (if width < available_width {
                width
            } else {
                available_width
            }, if height < available_height {
                height
            } else {
                available_height
            }),
        }
    }

    /// Where the dialog is drawn in `area`: its size there, centered.
    pub fn dialog_area(&self, area: Rect) -> (r: Rect)
        requires
            area.x + (area.width - dialog_dimensions(self.dialog_size(), area.width, area.height).0) / 2
                <= u16::MAX,
            area.y + (area.height - dialog_dimensions(self.dialog_size(), area.width, area.height).1) / 2
                <= u16::MAX,
        ensures
            r.width == dialog_dimensions(self.dialog_size(), area.width, area.height).0,
            r.height == dialog_dimensions(self.dialog_size(), area.width, area.height).1,
            r.x == area.x + (area.width - r.width) / 2,
            r.y == area.y + (area.height - r.height) / 2,
    {
        let (w, h) = self.get_dimensions(area.width, area.height);
        let dx = (area.width - w) / 2;
        let dy = (area.height - h) / 2;
        Rect { x: area.x + dx, y: area.y + dy, width: w, height: h }
    }
}

impl<M> Widget<M> for Dialog<M> {
    /// A dialog fills the space it is given.
    open spec fn sized_as(&self, c: Constraints) -> bool {
        c@ == fill_view()
    }

    open spec fn can_focus(&self) -> bool {
        true
    }

    open spec fn focus_flag(&self) -> bool {
        self.has_focus()
    }

    open spec fn keeps_focus(&self) -> bool {
        true
    }

    /// Esc closes the dialog, giving the close callback's message if any; other
    /// events go to the content, and those it ignores are consumed all the same
    /// (nothing reaches the background).
    fn handle_event(&mut self, event: &Event) -> (r: EventResult<M>)
        ensures
            r is Consumed,
            (event matches Event::Key(k) && k.code == KeyCode::Esc) ==> match old(self).close_handler() {
                Some(h) => r matches EventResult::Consumed(v) && v@.len() == 1 && h.gives((), v@[0]),
                None => r matches EventResult::Consumed(v) && v@.len() == 0,
            },
            final(self).dialog_size() == old(self).dialog_size(),
            final(self).has_focus() == old(self).has_focus(),
            final(self).close_handler() == old(self).close_handler(),
            (!(event matches Event::Key(k) && k.code == KeyCode::Esc) && old(self).content_passes_over(*event))
                ==> (r matches EventResult::Consumed(v) && v@.len() == 0),
    {
        proof { use_type_invariant(&*self); }
        if let Event::Key(key_event) = event {
            if let KeyCode::Esc = key_event.code {
                let mut messages = Vec::new();
                if let Some(h) = &self.on_close {
                    messages.push(h.call(()));
                }
                return EventResult::Consumed(messages);
            }
        }
        let mut content: Box<dyn Widget<M>> = Box::new(Placeholder);
        std::mem::swap(&mut content, &mut self.content);
        let result = content.handle_event(event);
        self.content = content;
        Self::after_content(result)
    }

    /// A dialog fills the space it is given.
    fn constraints(&self) -> (c: Constraints)
        ensures
            c@ == fill_view(),
    {
        Constraints::fill()
    }

    fn focusable(&self) -> (b: bool)
        ensures
            b,
    {
        true
    }

    fn is_focused(&self) -> (b: bool)
        ensures
            b == self.has_focus(),
    {
        self.focused
    }

    /// Sets focus on the dialog and its content.
    fn set_focused(&mut self, focused: bool)
        ensures
            final(self).has_focus() == focused,
            final(self).dialog_size() == old(self).dialog_size(),
            final(self).close_handler() == old(self).close_handler(),
    {
        proof { use_type_invariant(&*self); }
        self.focused = focused;
        let mut content: Box<dyn Widget<M>> = Box::new(Placeholder);
        std::mem::swap(&mut content, &mut self.content);
        content.set_focused(focused);
        self.content = content;
    }

    /// The focus chain of the content, found at `current_path` followed by 0.
    fn build_focus_chain_recursive(&self, current_path: &mut Vec<usize>, chain: &mut Vec<WidgetId>) {
        current_path.push(0);
        self.content.build_focus_chain_recursive(current_path, chain);
        current_path.pop();
    }

    /// Updates the focus of the content.
    fn update_focus_states_recursive(&mut self, current_path: &[usize], focus_id: Option<WidgetId>) {
        proof { use_type_invariant(&*self); }
        let mut content: Box<dyn Widget<M>> = Box::new(Placeholder);
        std::mem::swap(&mut content, &mut self.content);
        content.update_focus_states_recursive(current_path, focus_id);
        self.content = content;
    }
}

/// A widget that shows nothing and handles nothing, holding a place.
pub struct Placeholder;

impl<M> Widget<M> for Placeholder {
    /// It takes no focus.
    fn focusable(&self) -> (r: bool) {
        false
    }

    /// It is never focused.
    fn is_focused(&self) -> (r: bool) {
        false
    }

    /// It keeps no focus flag.
    fn set_focused(&mut self, _focused: bool) {
    }

    fn handle_event(&mut self, _event: &Event) -> EventResult<M> {
        EventResult::Ignored
    }

    fn constraints(&self) -> Constraints {
        Constraints::content()
    }
}

/// A new medium dialog of `content` over `background`.
pub fn dialog<M, B: Widget<M> + 'static, C: Widget<M> + 'static>(background: B, content: C) -> (d: Dialog<M>)
    ensures
        d.dialog_size() == DialogSize::Medium,
        !d.has_focus(),
        d.close_handler().is_none(),
{
    Dialog::new(background, content)
}

} // verus!
