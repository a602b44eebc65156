//! State shared by interactive widgets, and the styles that follow from it.

use vstd::prelude::*;
use crate::style::{merged, Color, Style};
use crate::theme::{Theme, ThemeStyles};

verus! {

/// Focus, disabled flag and custom styles of a widget.
#[derive(Debug, Clone, Copy, PartialEq, Eq, Structural)]
pub struct WidgetState {
    /// Whether the widget has focus.
    pub focused: bool,
    /// Whether the widget is disabled.
    pub disabled: bool,
    /// Style merged over the theme's style.
    pub custom_style: Option<Style>,
    /// Style merged over the theme's style while focused.
    pub custom_focus_style: Option<Style>,
}

/// Not focused, not disabled, no custom style.
pub open spec fn fresh_state() -> WidgetState {
    WidgetState { focused: false, disabled: false, custom_style: None, custom_focus_style: None }
}

impl WidgetState {
    /// Not focused, not disabled, no custom style.
    pub fn new() -> (s: Self)
        ensures
            s == (WidgetState {
                focused: false,
                disabled: false,
                custom_style: None,
                custom_focus_style: None,
            }),
    {
        WidgetState { focused: false, disabled: false, custom_style: None, custom_focus_style: None }
    }

    pub fn with_disabled(self, disabled: bool) -> (s: Self)
        ensures
            s == (WidgetState { disabled, ..self }),
    {
        WidgetState { disabled, ..self }
    }

    pub fn with_style(self, style: Style) -> (s: Self)
        ensures
            s == (WidgetState { custom_style: Some(style), ..self }),
    {
        WidgetState { custom_style: Some(style), ..self }
    }

    pub fn with_focus_style(self, style: Style) -> (s: Self)
        ensures
            s == (WidgetState { custom_focus_style: Some(style), ..self }),
    {
        WidgetState { custom_focus_style: Some(style), ..self }
    }

    pub fn is_focused(&self) -> (b: bool)
        ensures
            b == self.focused,
    {
        self.focused
    }

    pub fn is_disabled(&self) -> (b: bool)
        ensures
            b == self.disabled,
    {
        self.disabled
    }

    pub fn set_focused(&mut self, focused: bool)
        ensures
            *final(self) == (WidgetState { focused, ..*old(self) }),
    {
        self.focused = focused;
    }

    pub fn set_disabled(&mut self, disabled: bool)
        ensures
            *final(self) == (WidgetState { disabled, ..*old(self) }),
    {
        self.disabled = disabled;
    }

    /// A widget can take focus unless it is disabled.
    pub fn is_focusable(&self) -> (b: bool)
        ensures
            b == !self.disabled,
    {
        !self.disabled
    }
}

impl Default for WidgetState {
    fn default() -> (s: Self)
        ensures
            s == (WidgetState {
                focused: false,
                disabled: false,
                custom_style: None,
                custom_focus_style: None,
            }),
    {
        WidgetState::new()
    }
}

/// The style of a widget whose theme gives `base`: the custom focus style over
/// it while focused, then the custom style over that.
pub open spec fn effective_style(st: WidgetState, base: Style) -> Style {
    let s = if st.focused && st.custom_focus_style.is_some() {
        merged(st.custom_focus_style.unwrap(), base)
    } else {
        base
    };
    match st.custom_style {
        Some(c) => merged(c, s),
        None => s,
    }
}

/// The theme style of an interactive widget: disabled, focused or normal.
pub open spec fn interactive_base(st: WidgetState, styles: ThemeStyles) -> Style {
    if st.disabled {
        styles.disabled
    } else if st.focused {
        styles.interactive_focused
    } else {
        styles.interactive
    }
}

/// The theme style of a button: disabled, focused, hovered or normal.
pub open spec fn button_base(
    st: WidgetState,
    styles: ThemeStyles,
    is_hover: bool,
    normal: Style,
    hover: Style,
    focused: Style,
) -> Style {
    if st.disabled {
        styles.disabled
    } else if st.focused {
        focused
    } else if is_hover {
        hover
    } else {
        normal
    }
}

/// Computes widget styles from state and theme.
pub struct StyleManager;

impl StyleManager {
    /// The style of a widget in state `state` whose theme style is `base`.
    pub fn compute_style(state: &WidgetState, base: Style) -> (s: Style)
        ensures
            s == effective_style(*state, base),
    {
        let style = if state.focused {
            match state.custom_focus_style {
                Some(f) => f.merge(base),
                None => base,
            }
        } else {
            base
        };
        match state.custom_style {
            Some(c) => c.merge(style),
            None => style,
        }
    }

    /// The style of an interactive widget (checkbox, radio, input) under `theme`.
    pub fn interactive_style(state: &WidgetState, theme: &Theme) -> (s: Style)
        ensures
            s == effective_style(*state, interactive_base(*state, theme.styles)),
    {
        let base = if state.disabled {
            theme.styles.disabled
        } else if state.focused {
            theme.styles.interactive_focused
        } else {
            theme.styles.interactive
        };
        Self::compute_style(state, base)
    }

    /// The style of a button under `theme`, given the variant's normal, hover and
    /// focused styles.
    pub fn button_style(
        state: &WidgetState,
        is_hover: bool,
        normal: Style,
        hover: Style,
        focused: Style,
        theme: &Theme,
    ) -> (s: Style)
        ensures
            s == effective_style(
                *state,
                button_base(*state, theme.styles, is_hover, normal, hover, focused),
            ),
    {
        let base = if state.disabled {
            theme.styles.disabled
        } else if state.focused {
            focused
        } else if is_hover {
            hover
        } else {
            normal
        };
        Self::compute_style(state, base)
    }

    /// The border color: the focus ring while focused, the border color otherwise.
    pub fn border_color(state: &WidgetState, theme: &Theme) -> (c: Color)
        ensures
            c == if state.focused {
                theme.colors.focus_ring
            } else {
                theme.colors.border
            },
    {
        if state.focused {
            theme.colors.focus_ring
        } else {
            theme.colors.border
        }
    }
}

/// A widget that keeps a `WidgetState` gets the state builders from it:
/// implement `builder_state` (the state it keeps) and `widget_state_mut` (the
/// same state, to change), and `disabled`, `style` and `focus_style` come with
/// it.
pub trait StatefulWidgetBuilder: Sized {
    /// The state the widget keeps.
    spec fn builder_state(&self) -> WidgetState;

    /// The widget's state, to change in place.
    fn widget_state_mut(&mut self) -> (s: &mut WidgetState)
        ensures
            *s == old(self).builder_state(),
            final(self).builder_state() == *final(s),
    ;

    /// Sets the disabled flag.
    fn disabled(self, disabled: bool) -> (r: Self)
        ensures
            r.builder_state() == (WidgetState { disabled, ..self.builder_state() }),
    {
        let mut w = self;
        w.widget_state_mut().set_disabled(disabled);
        w
    }

    /// Sets the custom style.
    fn style(self, style: Style) -> (r: Self)
        ensures
            r.builder_state() == (WidgetState { custom_style: Some(style), ..self.builder_state() }),
    {
        let mut w = self;
        let state = w.widget_state_mut();
        state.custom_style = Some(style);
        w
    }

    /// Sets the custom focus style.
    fn focus_style(self, style: Style) -> (r: Self)
        ensures
            r.builder_state() == (WidgetState { custom_focus_style: Some(style), ..self.builder_state() }),
    {
        let mut w = self;
        let state = w.widget_state_mut();
        state.custom_focus_style = Some(style);
        w
    }
}

} // verus!
