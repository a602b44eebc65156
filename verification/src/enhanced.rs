//! A wrapper that adds focus, hover, click, border, padding and state-aware
//! styling to any widget, all opt-in, with one level of nesting.

use vstd::prelude::*;
use crate::event::{Event, EventResult, KeyCode, MouseButton, MouseEvent, MouseEventKind, Widget};
use crate::geometry::Rect;
use crate::handler::Handler;
use crate::interactive::{abs_distance, distance_ok, fits_distance, hit_test_ok, inside, near};
use crate::layout::{Constraints, ConstraintsView};
use crate::style::{plain_style, BorderStyle, Color, Padding, Style};
use crate::theme::Theme;
use crate::widget_id::WidgetId;

verus! {

/// What the wrapper tracks of the user's interaction.
#[derive(Debug, Clone, Copy)]
pub struct EnhancedState {
    /// The widget has keyboard focus.
    pub focused: bool,
    /// The mouse is over the widget.
    pub hovering: bool,
    /// The left button went down on the widget and is not released yet.
    pub pressed: bool,
    /// Where the left button went down.
    pub press_pos: Option<(u16, u16)>,
    /// The widget is disabled.
    pub disabled: bool,
}

/// The state of a fresh wrapper: nothing focused, hovered, pressed or disabled.
pub open spec fn initial_state() -> EnhancedState {
    EnhancedState { focused: false, hovering: false, pressed: false, press_pos: None, disabled: false }
}

/// What a wrapper adds besides its callbacks: the feature flags, the border and
/// padding, and the styles and border colors.
pub struct EnhancedSetup {
    pub is_focusable: bool,
    pub is_hoverable: bool,
    pub border_style: Option<BorderStyle>,
    pub padding: Option<Padding>,
    pub base_style: Option<Style>,
    pub hover_style: Option<Style>,
    pub focus_style: Option<Style>,
    pub disabled_style: Option<Style>,
    pub border_color: Option<Color>,
    pub focus_border_color: Option<Color>,
}

/// The setup of a fresh wrapper: nothing added.
pub open spec fn bare_setup() -> EnhancedSetup {
    EnhancedSetup {
        is_focusable: false,
        is_hoverable: false,
        border_style: None,
        padding: None,
        base_style: None,
        hover_style: None,
        focus_style: None,
        disabled_style: None,
        border_color: None,
        focus_border_color: None,
    }
}

/// A callback that takes nothing and gives a message.
pub type Callback<M> = Box<dyn Handler<(), M>>;

/// Every callback present accepts the call.
pub open spec fn callback_ready<M>(h: Option<Callback<M>>) -> bool {
    h matches Some(f) ==> f.ready()
}

/// `out` is what calling the optional callback gives when `fire` holds: one
/// message it gives, or none when it does not fire or is absent.
pub open spec fn called<M>(h: Option<Callback<M>>, fire: bool, out: Seq<M>) -> bool {
    if fire && h.is_some() {
        out.len() == 1 && h.unwrap().gives((), out[0])
    } else {
        out.len() == 0
    }
}

/// How many messages the optional callback gives when `fire` holds.
pub open spec fn call_count<M>(h: Option<Callback<M>>, fire: bool) -> int {
    if fire && h.is_some() {
        1
    } else {
        0
    }
}

/// `s` (or the empty style) with foreground `c`.
pub open spec fn with_fg(s: Option<Style>, c: Color) -> Style {
    match s {
        Some(st) => Style { fg_color: Some(c), ..st },
        None => Style { fg_color: Some(c), ..plain_style(None, None) },
    }
}

/// `s` (or the empty style) with background `c`.
pub open spec fn with_bg(s: Option<Style>, c: Color) -> Style {
    match s {
        Some(st) => Style { bg_color: Some(c), ..st },
        None => Style { bg_color: Some(c), ..plain_style(None, None) },
    }
}

/// The style set, or the empty style.
fn base_or_default(s: Option<Style>) -> (r: Style)
    ensures
        r == match s {
            Some(st) => st,
            None => plain_style(None, None),
        },
{
    match s {
        Some(st) => st,
        None => Style::default(),
    }
}

/// The style for the state: disabled, then focused, then hovering, then
/// normal; each the wrapper's own style where set (focus and hover fall back to
/// the normal style), else the theme's.
pub open spec fn effective_style(setup: EnhancedSetup, st: EnhancedState, theme: &Theme) -> Style {
    if st.disabled {
        match setup.disabled_style {
            Some(s) => s,
            None => theme.styles.disabled,
        }
    } else if st.focused {
        match setup.focus_style {
            Some(s) => s,
            None => match setup.base_style {
                Some(s) => s,
                None => theme.styles.interactive_focused,
            },
        }
    } else if st.hovering {
        match setup.hover_style {
            Some(s) => s,
            None => match setup.base_style {
                Some(s) => s,
                None => theme.styles.hover,
            },
        }
    } else {
        match setup.base_style {
            Some(s) => s,
            None => theme.styles.interactive,
        }
    }
}

/// Whether handling `ev` in state `st` computes only distances that fit.
pub open spec fn press_ok(st: EnhancedState, area: Rect, ev: MouseEvent) -> bool {
    (ev.kind == MouseEventKind::Up(MouseButton::Left) && inside(area, ev.column, ev.row) && st.pressed
        && st.press_pos.is_some()) ==> distance_ok(ev.column, st.press_pos.unwrap().0) && distance_ok(
        ev.row,
        st.press_pos.unwrap().1,
    )
}

/// A left release inside the area within a cell of the left press.
pub open spec fn click_fires(st: EnhancedState, area: Rect, ev: MouseEvent) -> bool {
    &&& ev.kind == MouseEventKind::Up(MouseButton::Left)
    &&& inside(area, ev.column, ev.row)
    &&& st.pressed
    &&& st.press_pos is Some
    &&& near((ev.column, ev.row), st.press_pos.unwrap())
}

/// The state after a mouse event: a left press inside records it, a left
/// release forgets any press.
pub open spec fn after_mouse(st: EnhancedState, area: Rect, ev: MouseEvent) -> EnhancedState {
    match ev.kind {
        MouseEventKind::Down(MouseButton::Left) => if inside(area, ev.column, ev.row) {
            EnhancedState { pressed: true, press_pos: Some((ev.column, ev.row)), ..st }
        } else {
            st
        },
        MouseEventKind::Up(MouseButton::Left) => EnhancedState { pressed: false, press_pos: None, ..st },
        _ => st,
    }
}

/// Enter or Space.
pub open spec fn activates(code: KeyCode) -> bool {
    code == KeyCode::Enter || code == KeyCode::Char(' ')
}

/// The callbacks of a wrapper, each ready to be called.
#[verifier::reject_recursive_types(M)]
struct Callbacks<M> {
    on_click: Option<Callback<M>>,
    on_mouse_enter: Option<Callback<M>>,
    on_mouse_leave: Option<Callback<M>>,
    on_focus: Option<Callback<M>>,
    on_blur: Option<Callback<M>>,
}

impl<M> Callbacks<M> {
    #[verifier::type_invariant]
    spec fn inv(&self) -> bool {
        &&& callback_ready(self.on_click)
        &&& callback_ready(self.on_mouse_enter)
        &&& callback_ready(self.on_mouse_leave)
        &&& callback_ready(self.on_focus)
        &&& callback_ready(self.on_blur)
    }
}

/// Enhanced wrapper: adds opt-in features to a widget.
#[verifier::reject_recursive_types(M)]
pub struct Enhanced<M, W> {
    inner: W,
    is_focusable: bool,
    is_hoverable: bool,
    border_style: Option<BorderStyle>,
    padding: Option<Padding>,
    base_style: Option<Style>,
    hover_style: Option<Style>,
    focus_style: Option<Style>,
    disabled_style: Option<Style>,
    border_color: Option<Color>,
    focus_border_color: Option<Color>,
    callbacks: Callbacks<M>,
    cached_area: Option<Rect>,
    registered: bool,
    state: EnhancedState,
}

impl<M, W> Enhanced<M, W> {
    pub closed spec fn wrapped(&self) -> W {
        self.inner
    }

    pub closed spec fn setup(&self) -> EnhancedSetup {
        EnhancedSetup {
            is_focusable: self.is_focusable,
            is_hoverable: self.is_hoverable,
            border_style: self.border_style,
            padding: self.padding,
            base_style: self.base_style,
            hover_style: self.hover_style,
            focus_style: self.focus_style,
            disabled_style: self.disabled_style,
            border_color: self.border_color,
            focus_border_color: self.focus_border_color,
        }
    }

    pub closed spec fn click_handler(&self) -> Option<Callback<M>> {
        self.callbacks.on_click
    }

    pub closed spec fn enter_handler(&self) -> Option<Callback<M>> {
        self.callbacks.on_mouse_enter
    }

    pub closed spec fn leave_handler(&self) -> Option<Callback<M>> {
        self.callbacks.on_mouse_leave
    }

    pub closed spec fn focus_handler(&self) -> Option<Callback<M>> {
        self.callbacks.on_focus
    }

    pub closed spec fn blur_handler(&self) -> Option<Callback<M>> {
        self.callbacks.on_blur
    }

    /// The area the widget was last drawn in.
    pub closed spec fn area(&self) -> Option<Rect> {
        self.cached_area
    }

    /// Whether the widget was drawn with an enter or leave callback, so that
    /// hover tracking knows where it is.
    pub closed spec fn registered(&self) -> bool {
        self.registered
    }

    pub closed spec fn st(&self) -> EnhancedState {
        self.state
    }

    /// The callbacks of `self` and `other` are the same.
    pub open spec fn same_callbacks(&self, other: &Self) -> bool {
        &&& self.click_handler() == other.click_handler()
        &&& self.enter_handler() == other.enter_handler()
        &&& self.leave_handler() == other.leave_handler()
        &&& self.focus_handler() == other.focus_handler()
        &&& self.blur_handler() == other.blur_handler()
    }

    /// Everything but the setup is as in `other`.
    pub open spec fn same_but_setup(&self, other: &Self) -> bool {
        &&& self.wrapped() == other.wrapped()
        &&& self.same_callbacks(other)
        &&& self.area() == other.area()
        &&& self.registered() == other.registered()
        &&& self.st() == other.st()
    }

    /// Everything but the interaction state (and the area and registration) is
    /// as in `other`.
    pub open spec fn same_setup(&self, other: &Self) -> bool {
        &&& self.wrapped() == other.wrapped()
        &&& self.setup() == other.setup()
        &&& self.same_callbacks(other)
    }

    /// What handling `event` (not taken by the wrapped widget) gives: on a
    /// mouse move of a registered widget, the enter and then the leave callback
    /// (as hover tracking says), then the click of `handle_mouse_event`; on
    /// Enter or Space while focused, the click callback; otherwise nothing. The
    /// event is consumed exactly when some message came.
    pub open spec fn event_outcome(&self, event: Event, enter: bool, leave: bool, st: EnhancedState, r: EventResult<M>) -> bool {
        let out: Seq<M> = match r {
            EventResult::Consumed(v) => v@,
            EventResult::Ignored => Seq::empty(),
        };
        &&& (r is Consumed <==> out.len() > 0)
        &&& match event {
            Event::Mouse(me) => {
                let hovered = me.kind == MouseEventKind::Moved && self.registered();
                let k1 = call_count(self.enter_handler(), hovered && enter);
                let k2 = call_count(self.leave_handler(), hovered && leave);
                &&& called(self.enter_handler(), hovered && enter, out.take(k1))
                &&& k1 + k2 <= out.len()
                &&& called(self.leave_handler(), hovered && leave, out.subrange(k1, k1 + k2))
                &&& match self.area() {
                    None => out.len() == k1 + k2 && st == self.st(),
                    Some(a) => st == after_mouse(self.st(), a, me) && called(
                        self.click_handler(),
                        click_fires(self.st(), a, me),
                        out.skip(k1 + k2),
                    ),
                }
            },
            Event::Key(k) => st == self.st() && called(self.click_handler(), self.st().focused && activates(k.code), out),
            _ => st == self.st() && out.len() == 0,
        }
    }

    /// A wrapper that adds nothing yet.
    pub fn new(inner: W) -> (r: Self)
        ensures
            r.wrapped() == inner,
            r.setup() == bare_setup(),
            r.click_handler().is_none() && r.enter_handler().is_none() && r.leave_handler().is_none()
                && r.focus_handler().is_none() && r.blur_handler().is_none(),
            r.area().is_none() && !r.registered(),
            r.st() == initial_state(),
    {
        Enhanced {
            inner,
            is_focusable: false,
            is_hoverable: false,
            border_style: None,
            padding: None,
            base_style: None,
            hover_style: None,
            focus_style: None,
            disabled_style: None,
            border_color: None,
            focus_border_color: None,
            callbacks: Callbacks { on_click: None, on_mouse_enter: None, on_mouse_leave: None, on_focus: None, on_blur: None },
            cached_area: None,
            registered: false,
            state: EnhancedState { focused: false, hovering: false, pressed: false, press_pos: None, disabled: false },
        }
    }

    /// Makes the widget focusable.
    pub fn focusable(self) -> (r: Self)
        ensures
            r.setup() == (EnhancedSetup { is_focusable: true, ..self.setup() }),
            r.same_but_setup(&self),
    {
        proof { use_type_invariant(&self.callbacks); }
        Enhanced { is_focusable: true, ..self }
    }

    /// Turns on hover effects.
    pub fn hoverable(self) -> (r: Self)
        ensures
            r.setup() == (EnhancedSetup { is_hoverable: true, ..self.setup() }),
            r.same_but_setup(&self),
    {
        proof { use_type_invariant(&self.callbacks); }
        Enhanced { is_hoverable: true, ..self }
    }

    /// Draws a border around the widget.
    pub fn bordered(self, style: BorderStyle) -> (r: Self)
        ensures
            r.setup() == (EnhancedSetup { border_style: Some(style), ..self.setup() }),
            r.same_but_setup(&self),
    {
        proof { use_type_invariant(&self.callbacks); }
        Enhanced { border_style: Some(style), ..self }
    }

    /// Adds padding around the content.
    pub fn padding(self, padding: Padding) -> (r: Self)
        ensures
            r.setup() == (EnhancedSetup { padding: Some(padding), ..self.setup() }),
            r.same_but_setup(&self),
    {
        proof { use_type_invariant(&self.callbacks); }
        Enhanced { padding: Some(padding), ..self }
    }

    /// Sets the disabled state.
    pub fn disabled(self, disabled: bool) -> (r: Self)
        ensures
            r.st() == (EnhancedState { disabled: disabled, ..self.st() }),
            r.wrapped() == self.wrapped() && r.setup() == self.setup() && r.same_callbacks(&self),
            r.area() == self.area() && r.registered() == self.registered(),
    {
        proof { use_type_invariant(&self.callbacks); }
        let state = EnhancedState { disabled, ..self.state };
        Enhanced { state, ..self }
    }

    /// Sets the foreground color of the normal state.
    pub fn fg(self, color: Color) -> (r: Self)
        ensures
            r.setup() == (EnhancedSetup { base_style: Some(with_fg(self.setup().base_style, color)), ..self.setup() }),
            r.same_but_setup(&self),
    {
        proof { use_type_invariant(&self.callbacks); }
        let style = base_or_default(self.base_style).fg(color);
        Enhanced { base_style: Some(style), ..self }
    }

    /// Sets the background color of the normal state.
    pub fn bg(self, color: Color) -> (r: Self)
        ensures
            r.setup() == (EnhancedSetup { base_style: Some(with_bg(self.setup().base_style, color)), ..self.setup() }),
            r.same_but_setup(&self),
    {
        proof { use_type_invariant(&self.callbacks); }
        let style = base_or_default(self.base_style).bg(color);
        Enhanced { base_style: Some(style), ..self }
    }

    /// Sets the foreground color of the hover state.
    pub fn hover_fg(self, color: Color) -> (r: Self)
        ensures
            r.setup() == (EnhancedSetup { hover_style: Some(with_fg(self.setup().hover_style, color)), ..self.setup() }),
            r.same_but_setup(&self),
    {
        proof { use_type_invariant(&self.callbacks); }
        let style = base_or_default(self.hover_style).fg(color);
        Enhanced { hover_style: Some(style), ..self }
    }

    /// Sets the background color of the hover state.
    pub fn hover_bg(self, color: Color) -> (r: Self)
        ensures
            r.setup() == (EnhancedSetup { hover_style: Some(with_bg(self.setup().hover_style, color)), ..self.setup() }),
            r.same_but_setup(&self),
    {
        proof { use_type_invariant(&self.callbacks); }
        let style = base_or_default(self.hover_style).bg(color);
        Enhanced { hover_style: Some(style), ..self }
    }

    /// Sets the foreground color of the focus state.
    pub fn focus_fg(self, color: Color) -> (r: Self)
        ensures
            r.setup() == (EnhancedSetup { focus_style: Some(with_fg(self.setup().focus_style, color)), ..self.setup() }),
            r.same_but_setup(&self),
    {
        proof { use_type_invariant(&self.callbacks); }
        let style = base_or_default(self.focus_style).fg(color);
        Enhanced { focus_style: Some(style), ..self }
    }

    /// Sets the background color of the focus state.
    pub fn focus_bg(self, color: Color) -> (r: Self)
        ensures
            r.setup() == (EnhancedSetup { focus_style: Some(with_bg(self.setup().focus_style, color)), ..self.setup() }),
            r.same_but_setup(&self),
    {
        proof { use_type_invariant(&self.callbacks); }
        let style = base_or_default(self.focus_style).bg(color);
        Enhanced { focus_style: Some(style), ..self }
    }

    /// Sets the border color.
    pub fn border_color(self, color: Color) -> (r: Self)
        ensures
            r.setup() == (EnhancedSetup { border_color: Some(color), ..self.setup() }),
            r.same_but_setup(&self),
    {
        proof { use_type_invariant(&self.callbacks); }
        Enhanced { border_color: Some(color), ..self }
    }

    /// Sets the border color of the focus state.
    pub fn focus_border_color(self, color: Color) -> (r: Self)
        ensures
            r.setup() == (EnhancedSetup { focus_border_color: Some(color), ..self.setup() }),
            r.same_but_setup(&self),
    {
        proof { use_type_invariant(&self.callbacks); }
        Enhanced { focus_border_color: Some(color), ..self }
    }

    /// Sets the click callback (press and release within a cell, or Enter or
    /// Space while focused).
    pub fn on_click<F: Fn() -> M + 'static>(self, handler: F) -> (r: Self)
        requires
            call_requires(handler, ()),
        ensures
            r.click_handler() is Some,
            forall|m: M| r.click_handler().unwrap().gives((), m) == call_ensures(handler, (), m),
            r.enter_handler() == self.enter_handler() && r.leave_handler() == self.leave_handler()
                && r.focus_handler() == self.focus_handler() && r.blur_handler() == self.blur_handler(),
            r.wrapped() == self.wrapped() && r.setup() == self.setup() && r.area() == self.area()
                && r.registered() == self.registered() && r.st() == self.st(),
    {
        proof { use_type_invariant(&self.callbacks); }
        let h: Callback<M> = Box::new(handler);
        let callbacks = Callbacks { on_click: Some(h), ..self.callbacks };
        Enhanced { callbacks, ..self }
    }

    /// Sets the callback for the mouse entering the widget.
    pub fn on_mouse_enter<F: Fn() -> M + 'static>(self, handler: F) -> (r: Self)
        requires
            call_requires(handler, ()),
        ensures
            r.enter_handler() is Some,
            forall|m: M| r.enter_handler().unwrap().gives((), m) == call_ensures(handler, (), m),
            r.click_handler() == self.click_handler() && r.leave_handler() == self.leave_handler()
                && r.focus_handler() == self.focus_handler() && r.blur_handler() == self.blur_handler(),
            r.wrapped() == self.wrapped() && r.setup() == self.setup() && r.area() == self.area()
                && r.registered() == self.registered() && r.st() == self.st(),
    {
        proof { use_type_invariant(&self.callbacks); }
        let h: Callback<M> = Box::new(handler);
        let callbacks = Callbacks { on_mouse_enter: Some(h), ..self.callbacks };
        Enhanced { callbacks, ..self }
    }

    /// Sets the callback for the mouse leaving the widget.
    pub fn on_mouse_leave<F: Fn() -> M + 'static>(self, handler: F) -> (r: Self)
        requires
            call_requires(handler, ()),
        ensures
            r.leave_handler() is Some,
            forall|m: M| r.leave_handler().unwrap().gives((), m) == call_ensures(handler, (), m),
            r.click_handler() == self.click_handler() && r.enter_handler() == self.enter_handler()
                && r.focus_handler() == self.focus_handler() && r.blur_handler() == self.blur_handler(),
            r.wrapped() == self.wrapped() && r.setup() == self.setup() && r.area() == self.area()
                && r.registered() == self.registered() && r.st() == self.st(),
    {
        proof { use_type_invariant(&self.callbacks); }
        let h: Callback<M> = Box::new(handler);
        let callbacks = Callbacks { on_mouse_leave: Some(h), ..self.callbacks };
        Enhanced { callbacks, ..self }
    }

    /// Sets the callback for gaining focus (kept; gaining focus gives no message
    /// here, as focus changes return nothing).
    pub fn on_focus<F: Fn() -> M + 'static>(self, handler: F) -> (r: Self)
        requires
            call_requires(handler, ()),
        ensures
            r.focus_handler() is Some,
            forall|m: M| r.focus_handler().unwrap().gives((), m) == call_ensures(handler, (), m),
            r.click_handler() == self.click_handler() && r.enter_handler() == self.enter_handler()
                && r.leave_handler() == self.leave_handler() && r.blur_handler() == self.blur_handler(),
            r.wrapped() == self.wrapped() && r.setup() == self.setup() && r.area() == self.area()
                && r.registered() == self.registered() && r.st() == self.st(),
    {
        proof { use_type_invariant(&self.callbacks); }
        let h: Callback<M> = Box::new(handler);
        let callbacks = Callbacks { on_focus: Some(h), ..self.callbacks };
        Enhanced { callbacks, ..self }
    }

    /// Sets the callback for losing focus (kept; losing focus gives no message
    /// here, as focus changes return nothing).
    pub fn on_blur<F: Fn() -> M + 'static>(self, handler: F) -> (r: Self)
        requires
            call_requires(handler, ()),
        ensures
            r.blur_handler() is Some,
            forall|m: M| r.blur_handler().unwrap().gives((), m) == call_ensures(handler, (), m),
            r.click_handler() == self.click_handler() && r.enter_handler() == self.enter_handler()
                && r.leave_handler() == self.leave_handler() && r.focus_handler() == self.focus_handler(),
            r.wrapped() == self.wrapped() && r.setup() == self.setup() && r.area() == self.area()
                && r.registered() == self.registered() && r.st() == self.st(),
    {
        proof { use_type_invariant(&self.callbacks); }
        let h: Callback<M> = Box::new(handler);
        let callbacks = Callbacks { on_blur: Some(h), ..self.callbacks };
        Enhanced { callbacks, ..self }
    }

    /// The wrapped widget.
    pub fn inner(&self) -> (w: &W)
        ensures
            *w == self.wrapped(),
    {
        &self.inner
    }

    /// The wrapped widget, mutably.
    pub fn inner_mut(&mut self) -> (w: &mut W)
        ensures
            *w == old(self).wrapped(),
            final(self).wrapped() == *final(w),
            final(self).setup() == old(self).setup(),
            final(self).same_callbacks(old(self)),
            final(self).area() == old(self).area() && final(self).registered() == old(self).registered()
                && final(self).st() == old(self).st(),
    {
        &mut self.inner
    }

    /// Unwraps the widget.
    pub fn into_inner(self) -> (w: W)
        ensures
            w == self.wrapped(),
    {
        self.inner
    }

    /// Records the area the widget was drawn in, for hit testing; a widget with
    /// an enter or leave callback is then known to hover tracking.
    pub fn cache_area(&mut self, area: Rect)
        ensures
            final(self).area() == Some(area),
            final(self).registered() == (old(self).registered() || old(self).enter_handler().is_some()
                || old(self).leave_handler().is_some()),
            final(self).st() == old(self).st(),
            final(self).same_setup(old(self)),
    {
        proof { use_type_invariant(&self.callbacks); }
        self.cached_area = Some(area);
        if self.callbacks.on_mouse_enter.is_some() || self.callbacks.on_mouse_leave.is_some() {
            self.registered = true;
        }
    }

    /// The style the widget is drawn with under `theme` (see `effective_style`).
    pub fn compute_effective_style(&self, theme: &Theme) -> (s: Style)
        ensures
            s == effective_style(self.setup(), self.st(), theme),
    {
        if self.state.disabled {
            match self.disabled_style {
                Some(st) => st,
                None => theme.styles.disabled,
            }
        } else if self.state.focused {
            match self.focus_style {
                Some(st) => st,
                None => match self.base_style {
                    Some(st) => st,
                    None => theme.styles.interactive_focused,
                },
            }
        } else if self.state.hovering {
            match self.hover_style {
                Some(st) => st,
                None => match self.base_style {
                    Some(st) => st,
                    None => theme.styles.hover,
                },
            }
        } else {
            match self.base_style {
                Some(st) => st,
                None => theme.styles.interactive,
            }
        }
    }

    /// The border color under `theme`: the focus border color (else the
    /// theme's focus ring) while focused, else the border color (else the
    /// theme's border).
    pub fn compute_border_color(&self, theme: &Theme) -> (c: Color)
        ensures
            c == if self.st().focused {
                match self.setup().focus_border_color {
                    Some(c) => c,
                    None => theme.colors.focus_ring,
                }
            } else {
                match self.setup().border_color {
                    Some(c) => c,
                    None => theme.colors.border,
                }
            },
    {
        if self.state.focused {
            match self.focus_border_color {
                Some(c) => c,
                None => theme.colors.focus_ring,
            }
        } else {
            match self.border_color {
                Some(c) => c,
                None => theme.colors.border,
            }
        }
    }

    /// Handles a mouse event over the drawn area: a left press inside arms a
    /// click, a left release ends it and calls the click callback when it is
    /// inside and within a cell of the press. Never drawn, nothing happens.
    pub fn handle_mouse_event(&mut self, mouse_event: &MouseEvent) -> (out: Vec<M>)
        requires
            old(self).area() matches Some(a) ==> hit_test_ok(a, mouse_event.column, mouse_event.row)
                && press_ok(old(self).st(), a, *mouse_event),
        ensures
            final(self).same_setup(old(self)),
            final(self).area() == old(self).area() && final(self).registered() == old(self).registered(),
            match old(self).area() {
                None => out@.len() == 0 && final(self).st() == old(self).st(),
                Some(a) => final(self).st() == after_mouse(old(self).st(), a, *mouse_event) && called(
                    old(self).click_handler(),
                    click_fires(old(self).st(), a, *mouse_event),
                    out@,
                ),
            },
    {
        proof { use_type_invariant(&self.callbacks); }
        let area = match self.cached_area {
            Some(a) => a,
            None => {
                return Vec::new();
            },
        };
        let mouse_x = mouse_event.column;
        let mouse_y = mouse_event.row;
        let is_inside = mouse_x >= area.x && mouse_x < area.x + area.width && mouse_y >= area.y
            && mouse_y < area.y + area.height;
        let mut state = self.state;
        let mut messages: Vec<M> = Vec::new();
        match mouse_event.kind {
            MouseEventKind::Down(MouseButton::Left) => {
                if is_inside {
                    state.pressed = true;
                    state.press_pos = Some((mouse_x, mouse_y));
                }
            },
            MouseEventKind::Up(MouseButton::Left) => {
                if is_inside && state.pressed {
                    if let Some(press_pos) = state.press_pos {
                        let dx = abs_distance(mouse_x, press_pos.0);
                        let dy = abs_distance(mouse_y, press_pos.1);
                        if dx <= 1 && dy <= 1 {
                            match &self.callbacks.on_click {
                                Some(h) => {
                                    let m = h.call(());
                                    messages.push(m);
                                },
                                None => {},
                            }
                        }
                    }
                }
                state.pressed = false;
                state.press_pos = None;
            },
            _ => {},
        }
        self.state = state;
        messages
    }

    /// Whether handling `ev` stays within 16-bit coordinate arithmetic.
    pub fn mouse_event_fits(&self, ev: &MouseEvent) -> (b: bool)
        ensures
            b == (self.area() matches Some(a) ==> hit_test_ok(a, ev.column, ev.row) && press_ok(self.st(), a, *ev)),
    {
        match self.cached_area {
            None => true,
            Some(area) => {
                let x = ev.column as u32;
                let y = ev.row as u32;
                let ax = area.x as u32;
                let ay = area.y as u32;
                let aw = area.width as u32;
                let ah = area.height as u32;
                if x >= ax && ax + aw > 0xFFFF {
                    return false;
                }
                if x >= ax && x < ax + aw && y >= ay && ay + ah > 0xFFFF {
                    return false;
                }
                let hit = x >= ax && x < ax + aw && y >= ay && y < ay + ah;
                if ev.kind == MouseEventKind::Up(MouseButton::Left) && hit && self.state.pressed {
                    if let Some(p) = self.state.press_pos {
                        return fits_distance(ev.column, p.0) && fits_distance(ev.row, p.1);
                    }
                }
                true
            },
        }
    }

    /// What follows the wrapped widget's own handling of an event (see
    /// `event_outcome`); `enter` and `leave` are hover tracking's answers
    /// whether the mouse just entered or left the widget.
    pub fn handle_event_after_inner(&mut self, inner_result: EventResult<M>, event: &Event, enter: bool, leave: bool) -> (r: EventResult<M>)
        requires
            (!(inner_result is Consumed) && event is Mouse && old(self).area() is Some) ==> ({
                let me = event->Mouse_0;
                let a = old(self).area().unwrap();
                hit_test_ok(a, me.column, me.row) && press_ok(old(self).st(), a, me)
            }),
        ensures
            final(self).same_setup(old(self)),
            final(self).area() == old(self).area() && final(self).registered() == old(self).registered(),
            inner_result is Consumed ==> r == inner_result && final(self).st() == old(self).st(),
            !(inner_result is Consumed) ==> old(self).event_outcome(*event, enter, leave, final(self).st(), r),
    {
        proof { use_type_invariant(&self.callbacks); }
        if inner_result.is_consumed() {
            return inner_result;
        }
        let mut messages: Vec<M> = Vec::new();
        match event {
            Event::Mouse(mouse_event) => {
                let moved = match mouse_event.kind {
                    MouseEventKind::Moved => true,
                    _ => false,
                };
                if moved && self.registered {
                    if enter {
                        match &self.callbacks.on_mouse_enter {
                            Some(h) => {
                                let m = h.call(());
                                messages.push(m);
                            },
                            None => {},
                        }
                    }
                    if leave {
                        match &self.callbacks.on_mouse_leave {
                            Some(h) => {
                                let m = h.call(());
                                messages.push(m);
                            },
                            None => {},
                        }
                    }
                }
                let ghost hover_part = messages@;
                let mut more = self.handle_mouse_event(mouse_event);
                messages.append(&mut more);
                proof {
                    let k1 = call_count(self.enter_handler(), moved && self.registered() && enter);
                    assert(hover_part.take(k1) =~= messages@.take(k1));
                    assert(hover_part.skip(k1) =~= messages@.subrange(k1, hover_part.len() as int));
                }
            },
            Event::Key(key_event) => {
                if self.state.focused {
                    let activate = match key_event.code {
                        KeyCode::Enter => true,
                        KeyCode::Char(c) => c == ' ',
                        _ => false,
                    };
                    if activate {
                        match &self.callbacks.on_click {
                            Some(h) => {
                                let m = h.call(());
                                messages.push(m);
                            },
                            None => {},
                        }
                    }
                }
            },
            _ => {},
        }
        if messages.len() > 0 {
            EventResult::Consumed(messages)
        } else {
            EventResult::Ignored
        }
    }
}

/// `x` capped at the largest 16-bit value.
pub open spec fn sat16(x: int) -> int {
    if x > 0xFFFF {
        0xFFFF
    } else {
        x
    }
}

/// A size grown by the padding `pad` and a border of `b` cells, capped at
/// the largest 16-bit value.
pub open spec fn grown(v: u16, pad: int, b: int) -> u16 {
    sat16(sat16(v + pad) + b) as u16
}

/// `c` grown by the setup's padding (left and right across, top and bottom
/// down) and border (one cell each side), each sum capped at the largest
/// 16-bit value.
pub open spec fn grown_constraints(c: ConstraintsView, setup: EnhancedSetup) -> ConstraintsView {
    let (across, down) = match setup.padding {
        Some(p) => (sat16(p.left + p.right), sat16(p.top + p.bottom)),
        None => (0int, 0int),
    };
    let b = if setup.border_style.is_some() {
        2int
    } else {
        0
    };
    ConstraintsView {
        min_width: grown(c.min_width, across, b),
        max_width: match c.max_width {
            Some(w) => Some(grown(w, across, b)),
            None => None,
        },
        min_height: grown(c.min_height, down, b),
        max_height: match c.max_height {
            Some(h) => Some(grown(h, down, b)),
            None => None,
        },
        flex: c.flex,
    }
}

impl<M, W> Enhanced<M, W> {
    /// The wrapped widget's constraints grown by the padding and border (see
    /// `grown_constraints`).
    pub fn grow_constraints(&self, c: Constraints) -> (r: Constraints)
        ensures
            r@ == grown_constraints(c@, self.setup()),
    {
        let (across, down) = match self.padding {
            Some(p) => (p.left.saturating_add(p.right), p.top.saturating_add(p.bottom)),
            None => (0u16, 0u16),
        };
        let b: u16 = if self.border_style.is_some() {
            2
        } else {
            0
        };
        Constraints {
            min_width: c.min_width.saturating_add(across).saturating_add(b),
            max_width: match c.max_width {
                Some(w) => Some(w.saturating_add(across).saturating_add(b)),
                None => None,
            },
            min_height: c.min_height.saturating_add(down).saturating_add(b),
            max_height: match c.max_height {
                Some(h) => Some(h.saturating_add(down).saturating_add(b)),
                None => None,
            },
            flex: c.flex,
        }
    }
}

impl<M, W: Widget<M>> Widget<M> for Enhanced<M, W> {
    /// The wrapped widget's constraints grown by padding and border.
    open spec fn sized_as(&self, c: Constraints) -> bool {
        exists|ci: Constraints| self.wrapped().sized_as(ci) && c@ == grown_constraints(ci@, self.setup())
    }

    /// An event that the wrapped widget passes over and that adds nothing
    /// here: a key that does not click (no click handler, no focus, or no
    /// activating key), a mouse event before any area is known, or any other
    /// event.
    open spec fn passes_over(&self, event: Event) -> bool {
        &&& self.wrapped().passes_over(event)
        &&& match event {
            Event::Key(k) => self.click_handler() is None || !self.st().focused || !activates(k.code),
            Event::Mouse(_) => self.area() is None,
            _ => true,
        }
    }

    /// The wrapped widget sees the event first; what it leaves goes through
    /// `handle_event_after_inner` (a mouse event whose arithmetic would not fit
    /// is ignored). An ignored event is one that neither took: the state moved
    /// on as `event_outcome` says, with no message.
    fn handle_event(&mut self, event: &Event) -> (r: EventResult<M>)
        ensures
            final(self).setup() == old(self).setup(),
            final(self).same_callbacks(old(self)),
            final(self).area() == old(self).area() && final(self).registered() == old(self).registered(),
            r is Ignored ==> if (*event matches Event::Mouse(me) && !(old(self).area() matches Some(a) ==> hit_test_ok(
                a,
                me.column,
                me.row,
            ) && press_ok(old(self).st(), a, me))) {
                final(self).st() == old(self).st()
            } else {
                old(self).event_outcome(*event, false, false, final(self).st(), r)
            },
            old(self).wrapped().passes_over(*event) ==> if (*event matches Event::Mouse(me) && !(old(self).area() matches Some(a) ==> hit_test_ok(
                a,
                me.column,
                me.row,
            ) && press_ok(old(self).st(), a, me))) {
                r is Ignored && final(self).st() == old(self).st()
            } else {
                old(self).event_outcome(*event, false, false, final(self).st(), r)
            },
    {
        let inner_result = self.inner.handle_event(event);
        if inner_result.is_consumed() {
            return inner_result;
        }
        if let Event::Mouse(mouse_event) = event {
            // coordinates whose hit test or click distance would overflow are ignored
            if !self.mouse_event_fits(mouse_event) {
                return EventResult::Ignored;
            }
        }
        // no hover tracker of drawn widget paths is kept here, so no enter or
        // leave is reported
        self.handle_event_after_inner(inner_result, event, false, false)
    }

    /// Focusable when made so or when the wrapped widget is; the focus flag is
    /// the wrapper's own.
    open spec fn can_focus(&self) -> bool {
        self.setup().is_focusable || self.wrapped().can_focus()
    }

    open spec fn focus_flag(&self) -> bool {
        self.st().focused
    }

    open spec fn keeps_focus(&self) -> bool {
        true
    }

    /// The wrapped widget's constraints, grown by padding and border.
    fn constraints(&self) -> (r: Constraints)
        ensures
            exists|ci: Constraints| call_ensures(W::constraints, (&self.wrapped(),), ci) && r@ == grown_constraints(
                ci@,
                self.setup(),
            ),
    {
        let c = self.inner.constraints();
        let r = self.grow_constraints(c);
        assert(self.wrapped().sized_as(c) && r@ == grown_constraints(c@, self.setup()));
        r
    }

    /// Focusable when made so or when the wrapped widget is.
    fn focusable(&self) -> (r: bool) {
        self.is_focusable || self.inner.focusable()
    }

    fn is_focused(&self) -> (r: bool)
        ensures
            r == self.st().focused,
    {
        self.state.focused
    }

    /// Sets the focus flag and passes it to the wrapped widget; nothing else
    /// changes.
    fn set_focused(&mut self, focused: bool)
        ensures
            final(self).st() == (EnhancedState { focused, ..old(self).st() }),
            final(self).setup() == old(self).setup(),
            final(self).same_callbacks(old(self)),
            final(self).area() == old(self).area() && final(self).registered() == old(self).registered(),
            old(self).wrapped().keeps_focus() ==> final(self).wrapped().focus_flag() == focused,
            final(self).wrapped().keeps_focus() == old(self).wrapped().keeps_focus(),
    {
        self.state.focused = focused;
        self.inner.set_focused(focused);
    }

    fn build_focus_chain_recursive(&self, current_path: &mut Vec<usize>, chain: &mut Vec<WidgetId>) {
        self.inner.build_focus_chain_recursive(current_path, chain);
    }

    /// Passes the update to the wrapped widget; the wrapper's own setup,
    /// state and callbacks stay as they were.
    fn update_focus_states_recursive(&mut self, current_path: &[usize], focus_id: Option<WidgetId>)
        ensures
            final(self).st() == old(self).st(),
            final(self).setup() == old(self).setup(),
            final(self).same_callbacks(old(self)),
            final(self).area() == old(self).area() && final(self).registered() == old(self).registered(),
    {
        self.inner.update_focus_states_recursive(current_path, focus_id);
    }
}

/// Wraps a widget to add features to it.
pub fn enhanced<M, W>(widget: W) -> (r: Enhanced<M, W>)
    ensures
        r.wrapped() == widget,
        r.setup() == bare_setup(),
        r.click_handler().is_none() && r.enter_handler().is_none() && r.leave_handler().is_none()
            && r.focus_handler().is_none() && r.blur_handler().is_none(),
        r.area().is_none() && !r.registered(),
        r.st() == initial_state(),
{
    Enhanced::new(widget)
}

/// A left press and a left release at the same cell inside the area make a
/// click, and the release leaves nothing pressed.
pub proof fn law_press_release_clicks(st: EnhancedState, area: Rect, x: u16, y: u16)
    requires
        inside(area, x, y),
    ensures
        ({
            let down = MouseEvent { kind: MouseEventKind::Down(MouseButton::Left), column: x, row: y };
            let up = MouseEvent { kind: MouseEventKind::Up(MouseButton::Left), column: x, row: y };
            let pressed = after_mouse(st, area, down);
            &&& click_fires(pressed, area, up)
            &&& !after_mouse(pressed, area, up).pressed
            &&& after_mouse(pressed, area, up).press_pos is None
        }),
{
}

/// `area` less `padding` on each side (sums capped at 16 bits); none when the
/// padding leaves no room.
pub open spec fn padded_area(area: Rect, padding: Option<Padding>) -> Option<Rect> {
    match padding {
        None => Some(area),
        Some(p) => {
            let across = sat16(p.left + p.right);
            let down = sat16(p.top + p.bottom);
            let w = if area.width > across { area.width - across } else { 0 };
            let h = if area.height > down { area.height - down } else { 0 };
            if w > 0 && h > 0 {
                Some(Rect { x: sat16(area.x + p.left) as u16, y: sat16(area.y + p.top) as u16, width: w as u16, height: h as u16 })
            } else {
                None
            }
        },
    }
}

/// `area` less a one-cell border; none when the border leaves no room.
pub open spec fn bordered_area(area: Rect) -> Option<Rect> {
    let w = if area.width > 2 { area.width - 2 } else { 0 };
    let h = if area.height > 2 { area.height - 2 } else { 0 };
    if w > 0 && h > 0 {
        Some(Rect { x: sat16(area.x + 1) as u16, y: sat16(area.y + 1) as u16, width: w as u16, height: h as u16 })
    } else {
        None
    }
}

/// What an enhanced widget draws in an area around its wrapped widget.
pub struct EnhancedPlan {
    /// The whole area filled with spaces in this style, when it has a
    /// background.
    pub fill: Option<Style>,
    /// The border drawn around the area, and its color.
    pub border: Option<(BorderStyle, Color)>,
    /// Where the wrapped widget is drawn; none when padding or border leave no
    /// room.
    pub inner: Option<Rect>,
}

impl<M, W> Enhanced<M, W> {
    /// What the wrapper draws in `area` under `theme`: the area filled in the
    /// effective style when that has a background; then, when the padding
    /// leaves room, the border (if any) in the border color, and the wrapped
    /// widget in what padding and border leave.
    pub fn render_plan(&self, area: Rect, theme: &Theme) -> (p: EnhancedPlan)
        ensures
            ({
                let eff = effective_style(self.setup(), self.st(), theme);
                &&& p.fill == if eff.bg_color.is_some() { Some(eff) } else { None }
                &&& match padded_area(area, self.setup().padding) {
                    None => p.border is None && p.inner is None,
                    Some(pa) => match self.setup().border_style {
                        Some(b) => p.border == Some((b, if self.st().focused {
                            match self.setup().focus_border_color {
                                Some(c) => c,
                                None => theme.colors.focus_ring,
                            }
                        } else {
                            match self.setup().border_color {
                                Some(c) => c,
                                None => theme.colors.border,
                            }
                        })) && p.inner == bordered_area(pa),
                        None => p.border is None && p.inner == Some(pa),
                    },
                }
            }),
    {
        let eff = self.compute_effective_style(theme);
        let fill = if eff.bg_color.is_some() { Some(eff) } else { None };
        let mut content = area;
        if let Some(p) = self.padding {
            let across = p.left.saturating_add(p.right);
            let down = p.top.saturating_add(p.bottom);
            let w = area.width.saturating_sub(across);
            let h = area.height.saturating_sub(down);
            if w > 0 && h > 0 {
                content = Rect { x: area.x.saturating_add(p.left), y: area.y.saturating_add(p.top), width: w, height: h };
            } else {
                return EnhancedPlan { fill, border: None, inner: None };
            }
        }
        match self.border_style {
            Some(b) => {
                let color = self.compute_border_color(theme);
                let w = content.width.saturating_sub(2);
                let h = content.height.saturating_sub(2);
                let inner = if w > 0 && h > 0 {
                    Some(Rect { x: content.x.saturating_add(1), y: content.y.saturating_add(1), width: w, height: h })
                } else {
                    None
                };
                EnhancedPlan { fill, border: Some((b, color)), inner }
            },
            None => EnhancedPlan { fill, border: None, inner: Some(content) },
        }
    }
}

} // verus!
