//! A button: a label that Enter, Space or a click activates.

use vstd::prelude::*;
use crate::event::{Event, EventResult, KeyCode, MouseButton, MouseEventKind, Widget};
use crate::handler::{handler_ready, Handler};
use crate::layout::{Constraints, ConstraintsView};
use crate::style::{border_chars_spec, make_style, merged, style_with_flag, styled, BorderChars, BorderStyle, Color, Style, UNDERLINED_BIT};
use crate::text::owned;
use crate::theme::{Theme, ThemeColors, ThemeStyles};
use crate::width::{str_width, text_width};

verus! {

/// The look of a button.
#[derive(Debug, Clone, Copy, PartialEq, Eq, Structural)]
pub enum ButtonVariant {
    /// Filled with the primary color
    Primary,
    /// Filled with the secondary color
    Secondary,
    /// Bordered, transparent
    Outlined,
    /// Underlined text
    Link,
    /// Filled with the danger color
    Destructive,
}

impl Default for ButtonVariant {
    fn default() -> (v: Self)
        ensures
            v == ButtonVariant::Primary,
    {
        ButtonVariant::Primary
    }
}

/// Whether the button is at rest, under the mouse or focused.
#[derive(Debug, Clone, Copy, PartialEq, Eq, Structural)]
pub enum ButtonState {
    Normal,
    Hover,
    Focused,
}

impl Default for ButtonState {
    fn default() -> (s: Self)
        ensures
            s == ButtonState::Normal,
    {
        ButtonState::Normal
    }
}

/// The theme's style for a button of `variant` in `st` (disabled aside).
pub open spec fn variant_style(variant: ButtonVariant, st: ButtonState, styles: ThemeStyles, colors: ThemeColors) -> Style {
    match variant {
        ButtonVariant::Primary => match st {
            ButtonState::Focused => styles.primary_action_focused,
            ButtonState::Hover => styles.primary_action_hover,
            ButtonState::Normal => styles.primary_action,
        },
        ButtonVariant::Secondary => match st {
            ButtonState::Focused => styles.secondary_action_focused,
            ButtonState::Hover => styles.secondary_action_hover,
            ButtonState::Normal => styles.secondary_action,
        },
        ButtonVariant::Outlined => match st {
            ButtonState::Focused => styles.interactive_focused,
            ButtonState::Hover => styles.hover,
            ButtonState::Normal => styled(Some(colors.text), None, false),
        },
        ButtonVariant::Link => match st {
            ButtonState::Focused => style_with_flag(styles.interactive_focused, UNDERLINED_BIT),
            ButtonState::Hover => style_with_flag(styles.hover, UNDERLINED_BIT),
            ButtonState::Normal => style_with_flag(styles.text, UNDERLINED_BIT),
        },
        ButtonVariant::Destructive => match st {
            ButtonState::Normal => styled(Some(Color::White), Some(colors.danger), false),
            _ => styled(Some(Color::White), Some(colors.danger), true),
        },
    }
}

/// The style a button is drawn with: the theme's (disabled first), then the
/// custom focus style over it while focused, or else the custom style over it.
pub open spec fn button_style(
    variant: ButtonVariant,
    st: ButtonState,
    disabled: bool,
    custom: Option<Style>,
    custom_focus: Option<Style>,
    theme: Theme,
) -> Style {
    let base = if disabled {
        theme.styles.disabled
    } else {
        variant_style(variant, st, theme.styles, theme.colors)
    };
    if st == ButtonState::Focused && custom_focus.is_some() {
        merged(custom_focus.unwrap(), base)
    } else {
        match custom {
            Some(c) => merged(c, base),
            None => base,
        }
    }
}

/// Whether an event activates a button: Enter, Space or a left click.
pub open spec fn activates(ev: Event) -> bool {
    match ev {
        Event::Key(k) => k.code == KeyCode::Enter || k.code == KeyCode::Char(' '),
        Event::Mouse(m) => m.kind == MouseEventKind::Down(MouseButton::Left),
        _ => false,
    }
}

/// `x` capped at the largest `u16`.
pub open spec fn sat16(x: int) -> u16 {
    if x > u16::MAX {
        u16::MAX
    } else {
        x as u16
    }
}

/// The size of a button with a label `w` columns wide: an outlined button has a
/// border and padding (six more columns, three rows); the others padding and
/// focus marks (four more columns, one row).
pub open spec fn button_size(variant: ButtonVariant, w: nat) -> (u16, u16) {
    let lw = (w % 0x10000) as int;
    if variant == ButtonVariant::Outlined {
        (sat16(lw + 6), 3u16)
    } else {
        (sat16(lw + 4), 1u16)
    }
}

/// An interactive button.
#[verifier::reject_recursive_types(M)]
pub struct Button<M = ()> {
    label: String,
    variant: ButtonVariant,
    custom_style: Option<Style>,
    custom_focus_style: Option<Style>,
    disabled: bool,
    state: ButtonState,
    on_click: Option<Box<dyn Handler<(), M>>>,
}

impl<M> Button<M> {
    #[verifier::type_invariant]
    spec fn inv(&self) -> bool {
        handler_ready(self.on_click)
    }

    pub closed spec fn label_view(&self) -> Seq<char> {
        self.label@
    }

    pub closed spec fn look(&self) -> ButtonVariant {
        self.variant
    }

    pub closed spec fn custom(&self) -> Option<Style> {
        self.custom_style
    }

    pub closed spec fn custom_focus(&self) -> Option<Style> {
        self.custom_focus_style
    }

    pub closed spec fn is_disabled(&self) -> bool {
        self.disabled
    }

    /// Rest, hover or focus.
    pub closed spec fn button_state(&self) -> ButtonState {
        self.state
    }

    pub closed spec fn click_handler(&self) -> Option<Box<dyn Handler<(), M>>> {
        self.on_click
    }

    /// Everything but the rest/hover/focus state is as in `other`.
    pub open spec fn same_setup(&self, other: &Self) -> bool {
        &&& self.label_view() == other.label_view()
        &&& self.look() == other.look()
        &&& self.custom() == other.custom()
        &&& self.custom_focus() == other.custom_focus()
        &&& self.is_disabled() == other.is_disabled()
        &&& self.click_handler() == other.click_handler()
    }

    /// A primary, enabled button at rest with the given label and no callback.
    pub fn new(label: &str) -> (b: Self)
        ensures
            b.label_view() == label@,
            b.look() == ButtonVariant::Primary,
            b.custom().is_none() && b.custom_focus().is_none(),
            !b.is_disabled(),
            b.button_state() == ButtonState::Normal,
            b.click_handler().is_none(),
    {
        Button {
            label: owned(label),
            variant: ButtonVariant::Primary,
            custom_style: None,
            custom_focus_style: None,
            disabled: false,
            state: ButtonState::Normal,
            on_click: None,
        }
    }

    pub fn variant(self, variant: ButtonVariant) -> (b: Self)
        ensures
            b.look() == variant,
            b.label_view() == self.label_view(),
            b.custom() == self.custom() && b.custom_focus() == self.custom_focus(),
            b.is_disabled() == self.is_disabled(),
            b.button_state() == self.button_state(),
            b.click_handler() == self.click_handler(),
    {
        proof { use_type_invariant(&self); }
        Button { variant, ..self }
    }

    /// Sets the callback whose message activation gives.
    pub fn on_click<F: Fn() -> M + 'static>(self, handler: F) -> (b: Self)
        requires
            call_requires(handler, ()),
        ensures
            b.click_handler().is_some(),
            forall|m: M| b.click_handler().unwrap().gives((), m) == call_ensures(handler, (), m),
            b.label_view() == self.label_view(),
            b.look() == self.look(),
            b.custom() == self.custom() && b.custom_focus() == self.custom_focus(),
            b.is_disabled() == self.is_disabled(),
            b.button_state() == self.button_state(),
    {
        let h: Box<dyn Handler<(), M>> = Box::new(handler);
        Button {
            label: self.label,
            variant: self.variant,
            custom_style: self.custom_style,
            custom_focus_style: self.custom_focus_style,
            disabled: self.disabled,
            state: self.state,
            on_click: Some(h),
        }
    }

    /// Sets the disabled state; a disabled button ignores input.
    pub fn disabled(self, disabled: bool) -> (b: Self)
        ensures
            b.is_disabled() == disabled,
            b.label_view() == self.label_view(),
            b.look() == self.look(),
            b.custom() == self.custom() && b.custom_focus() == self.custom_focus(),
            b.button_state() == self.button_state(),
            b.click_handler() == self.click_handler(),
    {
        proof { use_type_invariant(&self); }
        Button { disabled, ..self }
    }

    pub fn style(self, style: Style) -> (b: Self)
        ensures
            b.custom() == Some(style),
            b.custom_focus() == self.custom_focus(),
            b.label_view() == self.label_view(),
            b.look() == self.look(),
            b.is_disabled() == self.is_disabled(),
            b.button_state() == self.button_state(),
            b.click_handler() == self.click_handler(),
    {
        proof { use_type_invariant(&self); }
        Button { custom_style: Some(style), ..self }
    }

    pub fn focus_style(self, style: Style) -> (b: Self)
        ensures
            b.custom_focus() == Some(style),
            b.custom() == self.custom(),
            b.label_view() == self.label_view(),
            b.look() == self.look(),
            b.is_disabled() == self.is_disabled(),
            b.button_state() == self.button_state(),
            b.click_handler() == self.click_handler(),
    {
        proof { use_type_invariant(&self); }
        Button { custom_focus_style: Some(style), ..self }
    }

    /// The style the button is drawn with under `theme`.
    pub fn get_style(&self, theme: &Theme) -> (s: Style)
        ensures
            s == button_style(
                self.look(),
                self.button_state(),
                self.is_disabled(),
                self.custom(),
                self.custom_focus(),
                *theme,
            ),
    {
        let styles = &theme.styles;
        let colors = &theme.colors;
        let base = if self.disabled {
            styles.disabled
        } else {
            match self.variant {
                ButtonVariant::Primary => match self.state {
                    ButtonState::Focused => styles.primary_action_focused,
                    ButtonState::Hover => styles.primary_action_hover,
                    ButtonState::Normal => styles.primary_action,
                },
                ButtonVariant::Secondary => match self.state {
                    ButtonState::Focused => styles.secondary_action_focused,
                    ButtonState::Hover => styles.secondary_action_hover,
                    ButtonState::Normal => styles.secondary_action,
                },
                ButtonVariant::Outlined => match self.state {
                    ButtonState::Focused => styles.interactive_focused,
                    ButtonState::Hover => styles.hover,
                    ButtonState::Normal => make_style(Some(colors.text), None, false),
                },
                ButtonVariant::Link => match self.state {
                    ButtonState::Focused => styles.interactive_focused.underlined(),
                    ButtonState::Hover => styles.hover.underlined(),
                    ButtonState::Normal => styles.text.underlined(),
                },
                ButtonVariant::Destructive => match self.state {
                    ButtonState::Normal => make_style(Some(Color::White), Some(colors.danger), false),
                    _ => make_style(Some(Color::White), Some(colors.danger), true),
                },
            }
        };
        let focused = match self.state {
            ButtonState::Focused => true,
            _ => false,
        };
        if focused {
            if let Some(f) = self.custom_focus_style {
                return f.merge(base);
            }
        }
        match self.custom_style {
            Some(c) => c.merge(base),
            None => base,
        }
    }

    /// The label's width in columns.
    pub closed spec fn label_width(&self) -> nat {
        text_width(self.label@)
    }
}

impl<M> Widget<M> for Button<M> {
    /// The size of the button's look around its label.
    open spec fn sized_as(&self, c: Constraints) -> bool {
        c@ == (ConstraintsView {
            min_width: button_size(self.look(), self.label_width()).0,
            max_width: Some(button_size(self.look(), self.label_width()).0),
            min_height: button_size(self.look(), self.label_width()).1,
            max_height: Some(button_size(self.look(), self.label_width()).1),
            flex: None,
        })
    }

    open spec fn can_focus(&self) -> bool {
        !self.is_disabled()
    }

    open spec fn focus_flag(&self) -> bool {
        self.button_state() == ButtonState::Focused
    }

    open spec fn keeps_focus(&self) -> bool {
        true
    }

    /// A button ignores every event but an activation of an enabled button
    /// with a click callback.
    open spec fn passes_over(&self, event: Event) -> bool {
        self.is_disabled() || !activates(event) || self.click_handler().is_none()
    }

    /// Enter, Space or a left click give the callback's message (ignored without
    /// one); a mouse move puts the button in hover; a disabled button ignores
    /// everything.
    fn handle_event(&mut self, event: &Event) -> (r: EventResult<M>)
        ensures
            final(self).same_setup(old(self)),
            (old(self).is_disabled() || !(activates(*event) || (event matches Event::Mouse(m)
                && m.kind == MouseEventKind::Moved))) ==> r is Ignored && final(self).button_state()
                == old(self).button_state(),
            (!old(self).is_disabled() && activates(*event)) ==> final(self).button_state() == old(
                self,
            ).button_state() && match old(self).click_handler() {
                Some(h) => r matches EventResult::Consumed(v) && v@.len() == 1 && h.gives((), v@[0]),
                None => r is Ignored,
            },
            (!old(self).is_disabled() && (event matches Event::Mouse(m) && m.kind
                == MouseEventKind::Moved)) ==> r is Ignored && final(self).button_state()
                == ButtonState::Hover,
            button_handled(*old(self), *final(self), *event, r),
    {
        proof { use_type_invariant(&*self); }
        if self.disabled {
            return EventResult::Ignored;
        }
        let activate = match event {
            Event::Key(k) => match k.code {
                KeyCode::Enter => true,
                KeyCode::Char(c) => c == ' ',
                _ => false,
            },
            Event::Mouse(m) => match m.kind {
                MouseEventKind::Down(MouseButton::Left) => true,
                _ => false,
            },
            _ => false,
        };
        if activate {
            if let Some(h) = &self.on_click {
                let message = h.call(());
                return EventResult::consumed_with(message);
            }
            return EventResult::Ignored;
        }
        if let Event::Mouse(m) = event {
            if let MouseEventKind::Moved = m.kind {
                self.state = ButtonState::Hover;
            }
        }
        EventResult::Ignored
    }

    /// Fixed to the label plus padding (and border for outlined buttons).
    fn constraints(&self) -> (c: Constraints)
        ensures
            c@ == (ConstraintsView {
                min_width: button_size(self.look(), self.label_width()).0,
                max_width: Some(button_size(self.look(), self.label_width()).0),
                min_height: button_size(self.look(), self.label_width()).1,
                max_height: Some(button_size(self.look(), self.label_width()).1),
                flex: None,
            }),
    {
        let w = str_width(self.label.as_str());
        let lw = (w % 0x10000) as u16;
        let (total_width, height) = match self.variant {
            ButtonVariant::Outlined => (lw.saturating_add(6), 3u16),
            _ => (lw.saturating_add(4), 1u16),
        };
        Constraints {
            min_width: total_width,
            max_width: Some(total_width),
            min_height: height,
            max_height: Some(height),
            flex: None,
        }
    }

    /// Focusable unless disabled.
    fn focusable(&self) -> (b: bool)
        ensures
            b == !self.is_disabled(),
    {
        !self.disabled
    }

    fn is_focused(&self) -> (b: bool)
        ensures
            b == (self.button_state() == ButtonState::Focused),
    {
        match self.state {
            ButtonState::Focused => true,
            _ => false,
        }
    }

    /// Gaining focus focuses; losing it returns a focused button to rest and
    /// leaves hover as it is.
    fn set_focused(&mut self, focused: bool)
        ensures
            final(self).same_setup(old(self)),
            final(self).button_state() == if focused {
                ButtonState::Focused
            } else if old(self).button_state() == ButtonState::Focused {
                ButtonState::Normal
            } else {
                old(self).button_state()
            },
    {
        proof { use_type_invariant(&*self); }
        if focused {
            self.state = ButtonState::Focused;
        } else if let ButtonState::Focused = self.state {
            self.state = ButtonState::Normal;
        }
    }
}

/// What a button draws in its area, as plain values.
#[derive(Debug, Clone, Copy)]
pub struct ButtonPlan {
    /// The style of the label (and of the background when filled)
    pub style: Style,
    /// Whether the whole area is filled with the style
    pub filled: bool,
    /// The frame and its style, for an outlined button
    pub border: Option<(BorderChars, Style)>,
    /// Where the label starts
    pub text_x: u16,
    pub text_y: u16,
}

/// The column where a label `text_w` wide starts: centred in the area less the
/// frame, or right after the frame when it does not fit.
pub open spec fn label_x(width: u16, text_w: u16, frame: u16) -> u16 {
    let available = if width > 2 * frame {
        width - 2 * frame
    } else {
        0
    };
    if available > text_w {
        (frame + (available - text_w) / 2) as u16
    } else {
        frame
    }
}

impl<M> Button<M> {
    /// What the button draws in a `width` by `height` area under `theme`:
    /// nothing in an empty area; else its style, a filled background for the
    /// primary, secondary and destructive variants, a single frame in the focus
    /// ring color (focused) or the border color for the outlined variant, and
    /// the label centred on the middle line (inside the frame).
    pub fn render_plan(&self, width: u16, height: u16, theme: &Theme) -> (p: Option<ButtonPlan>)
        ensures
            (width == 0 || height == 0) <==> p.is_none(),
            p matches Some(plan) ==> {
                let frame: u16 = if self.look() == ButtonVariant::Outlined {
                    1
                } else {
                    0
                };
                &&& plan.style == button_style(
                    self.look(),
                    self.button_state(),
                    self.is_disabled(),
                    self.custom(),
                    self.custom_focus(),
                    *theme,
                )
                &&& plan.filled == (self.look() == ButtonVariant::Primary || self.look() == ButtonVariant::Secondary
                    || self.look() == ButtonVariant::Destructive)
                &&& plan.border == if self.look() == ButtonVariant::Outlined {
                    Some(
                        (
                            border_chars_spec(BorderStyle::Single),
                            styled(
                                Some(
                                    if self.button_state() == ButtonState::Focused {
                                        theme.colors.focus_ring
                                    } else {
                                        theme.colors.border
                                    },
                                ),
                                None,
                                false,
                            ),
                        ),
                    )
                } else {
                    None
                }
                &&& plan.text_x == label_x(width, (self.label_width() % 0x10000) as u16, frame)
                &&& plan.text_y == height / 2
            },
    {
        if width == 0 || height == 0 {
            return None;
        }
        let style = self.get_style(theme);
        let filled = match self.variant {
            ButtonVariant::Primary | ButtonVariant::Secondary | ButtonVariant::Destructive => true,
            _ => false,
        };
        let border = match self.variant {
            ButtonVariant::Outlined => {
                let color = match self.state {
                    ButtonState::Focused => theme.colors.focus_ring,
                    _ => theme.colors.border,
                };
                Some((BorderStyle::Single.chars(), make_style(Some(color), None, false)))
            },
            _ => None,
        };
        let text_w = (str_width(self.label.as_str()) % 0x10000) as u16;
        let frame: u16 = match self.variant {
            ButtonVariant::Outlined => 1,
            _ => 0,
        };
        let available = width.saturating_sub(frame * 2);
        let text_x = if available > text_w {
            frame + (available - text_w) / 2
        } else {
            frame
        };
        Some(ButtonPlan { style, filled, border, text_x, text_y: height / 2 })
    }
}

/// A new primary button with the given label.
pub fn button<M>(label: &str) -> (b: Button<M>)
    ensures
        b.label_view() == label@,
        b.look() == ButtonVariant::Primary,
        b.custom().is_none() && b.custom_focus().is_none(),
        !b.is_disabled(),
        b.button_state() == ButtonState::Normal,
        b.click_handler().is_none(),
{
    Button::new(label)
}

/// What handling `event` does to a button (`before` to `after`, result
/// `r`): a disabled button, or an event that neither activates it nor moves
/// the mouse, is ignored; activation gives the click callback's message; a
/// mouse move puts the button in the hover state.
pub open spec fn button_handled<M>(before: Button<M>, after: Button<M>, event: Event, r: EventResult<M>) -> bool {
    &&& after.same_setup(&before)
    &&& (before.is_disabled() || !(activates(event) || (event matches Event::Mouse(m) && m.kind
        == MouseEventKind::Moved))) ==> r is Ignored && after.button_state() == before.button_state()
    &&& (!before.is_disabled() && activates(event)) ==> after.button_state() == before.button_state()
        && match before.click_handler() {
        Some(h) => r matches EventResult::Consumed(v) && v@.len() == 1 && h.gives((), v@[0]),
        None => r is Ignored,
    }
    &&& (!before.is_disabled() && (event matches Event::Mouse(m) && m.kind == MouseEventKind::Moved))
        ==> r is Ignored && after.button_state() == ButtonState::Hover
}

} // verus!
