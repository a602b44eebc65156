//! A checkbox: a labelled boolean that keyboard and mouse toggle.

use vstd::prelude::*;
use crate::event::{Event, EventResult, KeyCode, MouseButton, MouseEventKind, Widget};
use crate::handler::{fire, fired, handler_ready, Handler};
use crate::layout::{Constraints, ConstraintsView};
use crate::style::{make_style, styled, Style};
use crate::text::owned;
use crate::theme::Theme;
use crate::widget_state::{effective_style, fresh_state, interactive_base, StyleManager, WidgetState};
use crate::width::{str_width, text_width};

verus! {

/// Whether an event toggles a checkbox: Enter, Space or a left click.
pub open spec fn toggles(ev: Event) -> bool {
    match ev {
        Event::Key(k) => k.code == KeyCode::Enter || k.code == KeyCode::Char(' '),
        Event::Mouse(m) => m.kind == MouseEventKind::Down(MouseButton::Left),
        _ => false,
    }
}

/// The width of a box, a space and a label `w` columns wide, saturating at the
/// largest `u16`.
pub open spec fn boxed_label_width(w: nat) -> u16 {
    let t = 4 + (w % 0x10000);
    if t > u16::MAX {
        u16::MAX
    } else {
        t as u16
    }
}

/// `[ ]` or `[✓]` plus a space before a label `w` columns wide.
pub fn boxed_label_width_of(w: usize) -> (r: u16)
    ensures
        r == boxed_label_width(w as nat),
{
    let lw = (w % 0x10000) as u16;
    lw.saturating_add(4)
}

/// An interactive checkbox.
#[verifier::reject_recursive_types(M)]
pub struct Checkbox<M = ()> {
    label: String,
    checked: bool,
    state: WidgetState,
    on_change: Option<Box<dyn Handler<(bool,), M>>>,
}

impl<M> Checkbox<M> {
    #[verifier::type_invariant]
    spec fn inv(&self) -> bool {
        handler_ready(self.on_change)
    }

    /// The label.
    pub closed spec fn label_view(&self) -> Seq<char> {
        self.label@
    }

    /// Whether the box is checked.
    pub closed spec fn is_checked(&self) -> bool {
        self.checked
    }

    /// Focus, disabled flag and custom styles.
    pub closed spec fn widget_state(&self) -> WidgetState {
        self.state
    }

    /// The change callback, if any.
    pub closed spec fn change_handler(&self) -> Option<Box<dyn Handler<(bool,), M>>> {
        self.on_change
    }

    /// An unchecked, enabled checkbox with the given label and no callback.
    pub fn new(label: &str) -> (c: Self)
        ensures
            c.label_view() == label@,
            !c.is_checked(),
            c.widget_state() == fresh_state(),
            c.change_handler().is_none(),
    {
        Checkbox { label: owned(label), checked: false, state: WidgetState::new(), on_change: None }
    }

    /// Sets the checked state.
    pub fn checked(self, checked: bool) -> (c: Self)
        ensures
            c.is_checked() == checked,
            c.label_view() == self.label_view(),
            c.widget_state() == self.widget_state(),
            c.change_handler() == self.change_handler(),
    {
        proof { use_type_invariant(&self); }
        Checkbox { checked, ..self }
    }

    /// Sets the callback called with the new state after each toggle.
    pub fn on_change<F: Fn(bool) -> M + 'static>(self, handler: F) -> (c: Self)
        requires
            forall|a: (bool,)| call_requires(handler, a),
        ensures
            c.change_handler().is_some(),
            forall|a: (bool,), m: M| c.change_handler().unwrap().gives(a, m) == call_ensures(handler, a, m),
            c.is_checked() == self.is_checked(),
            c.label_view() == self.label_view(),
            c.widget_state() == self.widget_state(),
    {
        let h: Box<dyn Handler<(bool,), M>> = Box::new(handler);
        Checkbox { label: self.label, checked: self.checked, state: self.state, on_change: Some(h) }
    }

    /// Sets the disabled state; a disabled checkbox ignores input.
    pub fn disabled(self, disabled: bool) -> (c: Self)
        ensures
            c.widget_state() == (WidgetState { disabled, ..self.widget_state() }),
            c.is_checked() == self.is_checked(),
            c.label_view() == self.label_view(),
            c.change_handler() == self.change_handler(),
    {
        proof { use_type_invariant(&self); }
        Checkbox { state: self.state.with_disabled(disabled), ..self }
    }

    /// Sets a custom style, merged over the theme's.
    pub fn style(self, style: Style) -> (c: Self)
        ensures
            c.widget_state() == (WidgetState { custom_style: Some(style), ..self.widget_state() }),
            c.is_checked() == self.is_checked(),
            c.label_view() == self.label_view(),
            c.change_handler() == self.change_handler(),
    {
        proof { use_type_invariant(&self); }
        Checkbox { state: self.state.with_style(style), ..self }
    }

    /// Sets a custom focus style, merged over the theme's while focused.
    pub fn focus_style(self, style: Style) -> (c: Self)
        ensures
            c.widget_state() == (WidgetState {
                custom_focus_style: Some(style),
                ..self.widget_state()
            }),
            c.is_checked() == self.is_checked(),
            c.label_view() == self.label_view(),
            c.change_handler() == self.change_handler(),
    {
        proof { use_type_invariant(&self); }
        Checkbox { state: self.state.with_focus_style(style), ..self }
    }

    /// The style the checkbox is drawn with under `theme`.
    pub fn get_style(&self, theme: &Theme) -> (s: Style)
        ensures
            s == effective_style(self.widget_state(), interactive_base(self.widget_state(), theme.styles)),
    {
        StyleManager::interactive_style(&self.state, theme)
    }

    /// The style of the box mark: bold in the success color while checked and
    /// enabled, the checkbox's style otherwise.
    pub fn mark_style(&self, theme: &Theme) -> (s: Style)
        ensures
            s == if self.is_checked() && !self.widget_state().disabled {
                styled(Some(theme.colors.success), None, true)
            } else {
                effective_style(self.widget_state(), interactive_base(self.widget_state(), theme.styles))
            },
    {
        if self.checked && !self.state.disabled {
            make_style(Some(theme.colors.success), None, true)
        } else {
            self.get_style(theme)
        }
    }

    /// The style of the label: bold in the info color while focused and enabled,
    /// the checkbox's style otherwise.
    pub fn label_style(&self, theme: &Theme) -> (s: Style)
        ensures
            s == if self.widget_state().focused && !self.widget_state().disabled {
                styled(Some(theme.colors.info), None, true)
            } else {
                effective_style(self.widget_state(), interactive_base(self.widget_state(), theme.styles))
            },
    {
        if self.state.focused && !self.state.disabled {
            make_style(Some(theme.colors.info), None, true)
        } else {
            self.get_style(theme)
        }
    }

    /// Flips the checked state and gives the callback's message for the new state.
    pub fn toggle(&mut self) -> (out: Vec<M>)
        ensures
            final(self).is_checked() == !old(self).is_checked(),
            final(self).label_view() == old(self).label_view(),
            final(self).widget_state() == old(self).widget_state(),
            final(self).change_handler() == old(self).change_handler(),
            fired(old(self).change_handler(), (final(self).is_checked(),), out@),
    {
        proof { use_type_invariant(&*self); }
        self.checked = !self.checked;
        fire(&self.on_change, (self.checked,))
    }

    /// The label's width in columns.
    pub closed spec fn label_width(&self) -> nat {
        text_width(self.label@)
    }
}

impl<M> Widget<M> for Checkbox<M> {
    /// One line as wide as the box and the label.
    open spec fn sized_as(&self, c: Constraints) -> bool {
        c@ == (ConstraintsView {
            min_width: boxed_label_width(self.label_width()),
            max_width: Some(boxed_label_width(self.label_width())),
            min_height: 1,
            max_height: Some(1),
            flex: None,
        })
    }

    open spec fn can_focus(&self) -> bool {
        !self.widget_state().disabled
    }

    open spec fn focus_flag(&self) -> bool {
        self.widget_state().focused
    }

    open spec fn keeps_focus(&self) -> bool {
        true
    }

    /// A checkbox ignores every event but a toggle of an enabled box.
    open spec fn passes_over(&self, event: Event) -> bool {
        self.widget_state().disabled || !toggles(event)
    }

    /// Enter, Space and a left click toggle an enabled checkbox; all else is
    /// ignored.
    fn handle_event(&mut self, event: &Event) -> (r: EventResult<M>)
        ensures
            (old(self).widget_state().disabled || !toggles(*event)) ==> r is Ignored
                && final(self).is_checked() == old(self).is_checked(),
            (!old(self).widget_state().disabled && toggles(*event)) ==> final(self).is_checked()
                == !old(self).is_checked() && (r matches EventResult::Consumed(v) && fired(
                old(self).change_handler(),
                (final(self).is_checked(),),
                v@,
            )),
            final(self).label_view() == old(self).label_view(),
            final(self).widget_state() == old(self).widget_state(),
            final(self).change_handler() == old(self).change_handler(),
            checkbox_handled(*old(self), *final(self), *event, r),
    {
        if self.state.disabled {
            return EventResult::Ignored;
        }
        let hit = match event {
            Event::Key(k) => match k.code {
                KeyCode::Enter => true,
                KeyCode::Char(c) => c == ' ',
                _ => false,
            },
            Event::Mouse(m) => match m.kind {
                MouseEventKind::Down(MouseButton::Left) => true,
                _ => false,
            },
            _ => false,
        };
        if hit {
            let messages = self.toggle();
            EventResult::Consumed(messages)
        } else {
            EventResult::Ignored
        }
    }

    /// One row, as wide as the box, a space and the label.
    fn constraints(&self) -> (c: Constraints)
        ensures
            c@ == (ConstraintsView {
                min_width: boxed_label_width(self.label_width()),
                max_width: Some(boxed_label_width(self.label_width())),
                min_height: 1,
                max_height: Some(1),
                flex: None,
            }),
    {
        let w = boxed_label_width_of(str_width(self.label.as_str()));
        Constraints { min_width: w, max_width: Some(w), min_height: 1, max_height: Some(1), flex: None }
    }

    /// Focusable unless disabled.
    fn focusable(&self) -> (b: bool)
        ensures
            b == !self.widget_state().disabled,
    {
        !self.state.disabled
    }

    fn is_focused(&self) -> (b: bool)
        ensures
            b == self.widget_state().focused,
    {
        self.state.focused
    }

    fn set_focused(&mut self, focused: bool)
        ensures
            final(self).widget_state() == (WidgetState { focused, ..old(self).widget_state() }),
            final(self).is_checked() == old(self).is_checked(),
            final(self).label_view() == old(self).label_view(),
            final(self).change_handler() == old(self).change_handler(),
    {
        proof { use_type_invariant(&*self); }
        self.state = WidgetState { focused, ..self.state };
    }
}

/// A new unchecked checkbox with the given label.
pub fn checkbox<M>(label: &str) -> (c: Checkbox<M>)
    ensures
        c.label_view() == label@,
        !c.is_checked(),
        c.widget_state() == fresh_state(),
        c.change_handler().is_none(),
{
    Checkbox::new(label)
}

/// What handling `event` does to a checkbox (`before` to `after`, result
/// `r`): a disabled box, or an event that does not toggle, is ignored; a toggle
/// flips the box and reports the new state.
pub open spec fn checkbox_handled<M>(before: Checkbox<M>, after: Checkbox<M>, event: Event, r: EventResult<M>) -> bool {
    &&& (before.widget_state().disabled || !toggles(event)) ==> r is Ignored && after.is_checked() == before.is_checked()
    &&& (!before.widget_state().disabled && toggles(event)) ==> after.is_checked() == !before.is_checked() && (r matches EventResult::Consumed(v) && fired(
        before.change_handler(),
        (after.is_checked(),),
        v@,
    ))
    &&& after.label_view() == before.label_view()
    &&& after.widget_state() == before.widget_state()
    &&& after.change_handler() == before.change_handler()
}

} // verus!
