//! Themes: semantic color palettes and the styles derived from them.

use vstd::prelude::*;
use crate::style::{make_style, styled, Color, Style};
use crate::text::owned;

verus! {

/// Semantic color definitions for a theme.
#[derive(Debug, Clone, Copy, PartialEq, Eq, Structural)]
pub struct ThemeColors {
    /// Primary accent color
    pub primary: Color,
    /// Secondary accent color
    pub secondary: Color,
    /// Success state color
    pub success: Color,
    /// Danger/error state color
    pub danger: Color,
    /// Warning state color
    pub warning: Color,
    /// Info state color
    pub info: Color,
    /// Main text color
    pub text: Color,
    /// Muted/secondary text color
    pub text_muted: Color,
    /// Main background color
    pub background: Color,
    /// Surface/card background color
    pub surface: Color,
    /// Border color
    pub border: Color,
    /// Focus ring color
    pub focus_ring: Color,
    /// Focus background highlight color
    pub focus_background: Color,
}

/// The dark palette.
pub open spec fn dark_colors() -> ThemeColors {
    ThemeColors {
        primary: Color::Rgb(99, 102, 241),
        secondary: Color::Rgb(139, 92, 246),
        success: Color::Rgb(34, 197, 94),
        danger: Color::Rgb(239, 68, 68),
        warning: Color::Rgb(251, 146, 60),
        info: Color::Rgb(59, 130, 246),
        text: Color::Rgb(229, 229, 231),
        text_muted: Color::Rgb(161, 161, 170),
        background: Color::Rgb(24, 24, 27),
        surface: Color::Rgb(39, 39, 42),
        border: Color::Rgb(63, 63, 70),
        focus_ring: Color::Rgb(129, 140, 248),
        focus_background: Color::Rgb(49, 46, 129),
    }
}

/// The light palette.
pub open spec fn light_colors() -> ThemeColors {
    ThemeColors {
        primary: Color::Rgb(79, 70, 229),
        secondary: Color::Rgb(124, 58, 237),
        success: Color::Rgb(22, 163, 74),
        danger: Color::Rgb(220, 38, 38),
        warning: Color::Rgb(234, 88, 12),
        info: Color::Rgb(37, 99, 235),
        text: Color::Rgb(24, 24, 27),
        text_muted: Color::Rgb(113, 113, 122),
        background: Color::Rgb(250, 250, 250),
        surface: Color::Rgb(255, 255, 255),
        border: Color::Rgb(212, 212, 216),
        focus_ring: Color::Rgb(67, 56, 202),
        focus_background: Color::Rgb(224, 231, 255),
    }
}

impl ThemeColors {
    /// The dark theme palette.
    pub fn dark() -> (c: Self)
        ensures
            c == dark_colors(),
    {
        ThemeColors {
            primary: Color::Rgb(99, 102, 241),
            secondary: Color::Rgb(139, 92, 246),
            success: Color::Rgb(34, 197, 94),
            danger: Color::Rgb(239, 68, 68),
            warning: Color::Rgb(251, 146, 60),
            info: Color::Rgb(59, 130, 246),
            text: Color::Rgb(229, 229, 231),
            text_muted: Color::Rgb(161, 161, 170),
            background: Color::Rgb(24, 24, 27),
            surface: Color::Rgb(39, 39, 42),
            border: Color::Rgb(63, 63, 70),
            focus_ring: Color::Rgb(129, 140, 248),
            focus_background: Color::Rgb(49, 46, 129),
        }
    }

    /// The light theme palette.
    pub fn light() -> (c: Self)
        ensures
            c == light_colors(),
    {
        ThemeColors {
            primary: Color::Rgb(79, 70, 229),
            secondary: Color::Rgb(124, 58, 237),
            success: Color::Rgb(22, 163, 74),
            danger: Color::Rgb(220, 38, 38),
            warning: Color::Rgb(234, 88, 12),
            info: Color::Rgb(37, 99, 235),
            text: Color::Rgb(24, 24, 27),
            text_muted: Color::Rgb(113, 113, 122),
            background: Color::Rgb(250, 250, 250),
            surface: Color::Rgb(255, 255, 255),
            border: Color::Rgb(212, 212, 216),
            focus_ring: Color::Rgb(67, 56, 202),
            focus_background: Color::Rgb(224, 231, 255),
        }
    }
}

/// Semantic style roles for theming.
#[derive(Debug, Clone, Copy, PartialEq, Eq, Structural)]
pub struct ThemeStyles {
    pub primary_action: Style,
    pub primary_action_hover: Style,
    pub primary_action_focused: Style,
    pub secondary_action: Style,
    pub secondary_action_hover: Style,
    pub secondary_action_focused: Style,
    pub interactive: Style,
    pub interactive_focused: Style,
    pub interactive_disabled: Style,
    pub text: Style,
    pub text_muted: Style,
    pub text_heading: Style,
    pub surface: Style,
    pub surface_elevated: Style,
    pub selected: Style,
    pub hover: Style,
    pub disabled: Style,
}

/// The style roles of a dark theme over the palette `c`; the action text is
/// `on_action` (the palette's text color for dark, white for light).
pub open spec fn theme_styles_spec(c: ThemeColors, on_action: Color) -> ThemeStyles {
    ThemeStyles {
        primary_action: styled(Some(on_action), Some(c.primary), false),
        primary_action_hover: styled(Some(on_action), Some(c.primary), true),
        primary_action_focused: styled(Some(on_action), Some(c.primary), true),
        secondary_action: styled(Some(on_action), Some(c.secondary), false),
        secondary_action_hover: styled(Some(on_action), Some(c.secondary), true),
        secondary_action_focused: styled(Some(on_action), Some(c.secondary), true),
        interactive: styled(Some(c.text), Some(c.surface), false),
        interactive_focused: styled(Some(c.text), Some(c.surface), true),
        interactive_disabled: styled(Some(c.text_muted), Some(c.surface), false),
        text: styled(Some(c.text), None, false),
        text_muted: styled(Some(c.text_muted), None, false),
        text_heading: styled(Some(c.text), None, true),
        surface: styled(Some(c.text), Some(c.background), false),
        surface_elevated: styled(Some(c.text), Some(c.surface), false),
        selected: styled(Some(on_action), Some(c.primary), false),
        hover: styled(Some(on_action), Some(c.primary), true),
        disabled: styled(Some(c.text_muted), None, false),
    }
}

fn styles_over(c: &ThemeColors, on_action: Color) -> (s: ThemeStyles)
    ensures
        s == theme_styles_spec(*c, on_action),
{
    ThemeStyles {
        primary_action: make_style(Some(on_action), Some(c.primary), false),
        primary_action_hover: make_style(Some(on_action), Some(c.primary), true),
        primary_action_focused: make_style(Some(on_action), Some(c.primary), true),
        secondary_action: make_style(Some(on_action), Some(c.secondary), false),
        secondary_action_hover: make_style(Some(on_action), Some(c.secondary), true),
        secondary_action_focused: make_style(Some(on_action), Some(c.secondary), true),
        interactive: make_style(Some(c.text), Some(c.surface), false),
        interactive_focused: make_style(Some(c.text), Some(c.surface), true),
        interactive_disabled: make_style(Some(c.text_muted), Some(c.surface), false),
        text: make_style(Some(c.text), None, false),
        text_muted: make_style(Some(c.text_muted), None, false),
        text_heading: make_style(Some(c.text), None, true),
        surface: make_style(Some(c.text), Some(c.background), false),
        surface_elevated: make_style(Some(c.text), Some(c.surface), false),
        selected: make_style(Some(on_action), Some(c.primary), false),
        hover: make_style(Some(on_action), Some(c.primary), true),
        disabled: make_style(Some(c.text_muted), None, false),
    }
}

impl ThemeStyles {
    /// Semantic styles for a dark theme.
    pub fn dark(colors: &ThemeColors) -> (s: Self)
        ensures
            s == theme_styles_spec(*colors, colors.text),
    {
        styles_over(colors, colors.text)
    }

    /// Semantic styles for a light theme.
    pub fn light(colors: &ThemeColors) -> (s: Self)
        ensures
            s == theme_styles_spec(*colors, Color::White),
    {
        styles_over(colors, Color::White)
    }
}

/// A complete theme definition.
#[derive(Debug, Clone)]
pub struct Theme {
    /// Theme name
    pub name: String,
    /// Semantic color palette
    pub colors: ThemeColors,
    /// Semantic style roles
    pub styles: ThemeStyles,
}

impl Theme {
    /// A theme with the given name, colors and styles.
    pub fn new(name: &str, colors: ThemeColors, styles: ThemeStyles) -> (t: Self)
        ensures
            t.name@ == name@,
            t.colors == colors,
            t.styles == styles,
    {
        Theme { name: owned(name), colors, styles }
    }

    /// The built-in dark theme.
    pub fn dark() -> (t: Self)
        ensures
            t.name@ == seq!['d', 'a', 'r', 'k'],
            t.colors == dark_colors(),
            t.styles == theme_styles_spec(dark_colors(), dark_colors().text),
    {
        let colors = ThemeColors::dark();
        let styles = ThemeStyles::dark(&colors);
        proof {
            reveal_strlit("dark");
            assert("dark"@ =~= seq!['d', 'a', 'r', 'k']);
        }
        Self::new("dark", colors, styles)
    }

    /// The built-in light theme.
    pub fn light() -> (t: Self)
        ensures
            t.name@ == seq!['l', 'i', 'g', 'h', 't'],
            t.colors == light_colors(),
            t.styles == theme_styles_spec(light_colors(), Color::White),
    {
        let colors = ThemeColors::light();
        let styles = ThemeStyles::light(&colors);
        proof {
            reveal_strlit("light");
            assert("light"@ =~= seq!['l', 'i', 'g', 'h', 't']);
        }
        Self::new("light", colors, styles)
    }

    /// A builder for custom themes.
    pub fn builder() -> (b: ThemeBuilder)
        ensures
            b.name@ == seq!['c', 'u', 's', 't', 'o', 'm'],
            b.colors.is_none(),
            b.styles.is_none(),
    {
        ThemeBuilder::new()
    }
}

/// Builder for custom themes.
#[derive(Debug)]
pub struct ThemeBuilder {
    pub name: String,
    pub colors: Option<ThemeColors>,
    pub styles: Option<ThemeStyles>,
}

impl ThemeBuilder {
    /// A builder named `custom` with nothing set.
    pub fn new() -> (b: Self)
        ensures
            b.name@ == seq!['c', 'u', 's', 't', 'o', 'm'],
            b.colors.is_none(),
            b.styles.is_none(),
    {
        proof {
            reveal_strlit("custom");
            assert("custom"@ =~= seq!['c', 'u', 's', 't', 'o', 'm']);
        }
        ThemeBuilder { name: owned("custom"), colors: None, styles: None }
    }

    /// Sets the theme name.
    pub fn name(self, name: &str) -> (b: Self)
        ensures
            b.name@ == name@,
            b.colors == self.colors,
            b.styles == self.styles,
    {
        ThemeBuilder { name: owned(name), colors: self.colors, styles: self.styles }
    }

    /// Sets the palette.
    pub fn colors(self, colors: ThemeColors) -> (b: Self)
        ensures
            b.name == self.name,
            b.colors == Some(colors),
            b.styles == self.styles,
    {
        ThemeBuilder { name: self.name, colors: Some(colors), styles: self.styles }
    }

    /// Sets the style roles.
    pub fn styles(self, styles: ThemeStyles) -> (b: Self)
        ensures
            b.name == self.name,
            b.colors == self.colors,
            b.styles == Some(styles),
    {
        ThemeBuilder { name: self.name, colors: self.colors, styles: Some(styles) }
    }

    /// Builds the theme; unset colors default to the dark palette and unset styles
    /// to the dark styles over the chosen palette.
    pub fn build(self) -> (t: Theme)
        ensures
            t.name == self.name,
            t.colors == (match self.colors {
                Some(c) => c,
                None => dark_colors(),
            }),
            t.styles == (match self.styles {
                Some(s) => s,
                None => theme_styles_spec(t.colors, t.colors.text),
            }),
    {
        let colors = match self.colors {
            Some(c) => c,
            None => ThemeColors::dark(),
        };
        let styles = match self.styles {
            Some(s) => s,
            None => ThemeStyles::dark(&colors),
        };
        Theme { name: self.name, colors, styles }
    }
}

} // verus!
