//! A divider: a horizontal or vertical line, optionally with a text in it.

use vstd::prelude::*;
use std::marker::PhantomData;
use crate::event::{Event, EventResult, Widget};
use crate::layout::{fill_view, Constraints, ConstraintsView, Flex};
use crate::style::{make_style, merged, styled, BorderStyle, Style};
use crate::text::{owned, push_char, push_str};
use crate::theme::Theme;
use crate::width::{str_width, text_width};

verus! {

/// Which way a divider runs.
#[derive(Debug, Clone, Copy, PartialEq, Eq, Structural)]
pub enum DividerDirection {
    Horizontal,
    Vertical,
}

/// Where the text sits on a horizontal divider.
#[derive(Debug, Clone, Copy, PartialEq, Eq, Structural)]
pub enum DividerTextPosition {
    Left,
    Center,
    Right,
}

impl Default for DividerTextPosition {
    fn default() -> (p: Self)
        ensures
            p == DividerTextPosition::Center,
    {
        DividerTextPosition::Center
    }
}

/// The line drawn.
#[derive(Debug, Clone, Copy, PartialEq, Eq, Structural)]
pub enum DividerVariant {
    Solid,
    Dashed,
    Dotted,
    Heavy,
    Double,
    Faded,
}

impl Default for DividerVariant {
    fn default() -> (v: Self)
        ensures
            v == DividerVariant::Solid,
    {
        DividerVariant::Solid
    }
}

/// The horizontal and vertical line characters of a variant.
pub open spec fn variant_chars(v: DividerVariant) -> (char, char) {
    match v {
        DividerVariant::Solid => ('─', '│'),
        DividerVariant::Dashed => ('╌', '╎'),
        DividerVariant::Dotted => ('·', '┊'),
        DividerVariant::Heavy => ('━', '┃'),
        DividerVariant::Double => ('═', '║'),
        DividerVariant::Faded => ('┈', '┊'),
    }
}

impl DividerVariant {
    /// The horizontal and vertical line characters.
    pub fn chars(&self) -> (c: (char, char))
        ensures
            c == variant_chars(*self),
    {
        match self {
            DividerVariant::Solid => ('─', '│'),
            DividerVariant::Dashed => ('╌', '╎'),
            DividerVariant::Dotted => ('·', '┊'),
            DividerVariant::Heavy => ('━', '┃'),
            DividerVariant::Double => ('═', '║'),
            DividerVariant::Faded => ('┈', '┊'),
        }
    }
}

/// `n` copies of `c`.
pub open spec fn repeated(c: char, n: nat) -> Seq<char> {
    Seq::new(n, |i: int| c)
}

/// The lengths of the line left and right of a text taking `total` columns
/// (spacing included) on a line `width` wide, with the given spacing.
pub open spec fn side_lengths(pos: DividerTextPosition, width: int, total: int, spacing: int) -> (int, int) {
    match pos {
        DividerTextPosition::Left => (spacing, if width - (total + spacing) > 0 {
            width - (total + spacing)
        } else {
            0
        }),
        DividerTextPosition::Center => ((width - total) / 2, (width - total) - (width - total) / 2),
        DividerTextPosition::Right => (if width - (total + spacing) > 0 {
            width - (total + spacing)
        } else {
            0
        }, spacing),
    }
}

/// A horizontal line `width` wide with `text` set in it: the text with its
/// spacing on both sides, the line filling the rest as the position says; just
/// the line when the text and spacing do not fit.
pub open spec fn line_with_text(
    line_char: char,
    width: int,
    text: Seq<char>,
    spacing: int,
    pos: DividerTextPosition,
) -> Seq<char> {
    let total = text_width(text) + spacing * 2;
    if total >= width {
        repeated(line_char, width as nat)
    } else {
        let (l, r) = side_lengths(pos, width, total, spacing);
        repeated(line_char, l as nat) + repeated(' ', spacing as nat) + text + repeated(' ', spacing as nat)
            + repeated(line_char, r as nat)
    }
}

/// Appends `n` copies of `c`.
fn push_repeated(s: &mut String, c: char, n: usize)
    ensures
        final(s)@ == old(s)@ + repeated(c, n as nat),
{
    let mut i: usize = 0;
    while i < n
        invariant
            i <= n,
            s@ == old(s)@ + repeated(c, i as nat),
        decreases n - i,
    {
        let ghost before = s@;
        push_char(s, c);
        i = i + 1;
        proof {
            assert(s@ =~= old(s)@ + repeated(c, i as nat));
        }
    }
}

/// The shape of a divider.
pub struct DividerView {
    pub direction: DividerDirection,
    pub variant: DividerVariant,
    pub style: Style,
    pub text: Option<Seq<char>>,
    pub text_position: DividerTextPosition,
    pub text_spacing: u16,
    pub constraints: ConstraintsView,
}

/// A separator line.
#[derive(Debug)]
pub struct Divider<M = ()> {
    direction: DividerDirection,
    variant: DividerVariant,
    style: Style,
    text: Option<String>,
    text_position: DividerTextPosition,
    text_spacing: u16,
    constraints: Constraints,
    _marker: PhantomData<M>,
}

impl<M> Divider<M> {
    pub closed spec fn view(&self) -> DividerView {
        DividerView {
            direction: self.direction,
            variant: self.variant,
            style: self.style,
            text: match self.text {
                Some(t) => Some(t@),
                None => None,
            },
            text_position: self.text_position,
            text_spacing: self.text_spacing,
            constraints: self.constraints@,
        }
    }

    /// A solid horizontal divider without text, spacing one, sized by default.
    pub fn new() -> (d: Self)
        ensures
            d.view() == (DividerView {
                direction: DividerDirection::Horizontal,
                variant: DividerVariant::Solid,
                style: styled(None, None, false),
                text: None,
                text_position: DividerTextPosition::Center,
                text_spacing: 1,
                constraints: crate::layout::content_view(),
            }),
    {
        Divider {
            direction: DividerDirection::Horizontal,
            variant: DividerVariant::Solid,
            style: make_style(None, None, false),
            text: None,
            text_position: DividerTextPosition::Center,
            text_spacing: 1,
            constraints: Constraints::content(),
            _marker: PhantomData,
        }
    }

    pub fn horizontal(self) -> (d: Self)
        ensures
            d.view() == (DividerView { direction: DividerDirection::Horizontal, ..self.view() }),
    {
        Divider { direction: DividerDirection::Horizontal, ..self }
    }

    pub fn vertical(self) -> (d: Self)
        ensures
            d.view() == (DividerView { direction: DividerDirection::Vertical, ..self.view() }),
    {
        Divider { direction: DividerDirection::Vertical, ..self }
    }

    pub fn variant(self, variant: DividerVariant) -> (d: Self)
        ensures
            d.view() == (DividerView { variant, ..self.view() }),
    {
        Divider { variant, ..self }
    }

    /// Sets the text shown in a horizontal divider.
    pub fn text(self, text: &str) -> (d: Self)
        ensures
            d.view() == (DividerView { text: Some(text@), ..self.view() }),
    {
        Divider { text: Some(owned(text)), ..self }
    }

    pub fn text_position(self, position: DividerTextPosition) -> (d: Self)
        ensures
            d.view() == (DividerView { text_position: position, ..self.view() }),
    {
        Divider { text_position: position, ..self }
    }

    /// Sets the spaces on each side of the text.
    pub fn text_spacing(self, spacing: u16) -> (d: Self)
        ensures
            d.view() == (DividerView { text_spacing: spacing, ..self.view() }),
    {
        Divider { text_spacing: spacing, ..self }
    }

    /// Sets the variant from a border style (kept for older callers): no border
    /// is faded, single and rounded are solid, double is double, thick is heavy.
    pub fn border_style(self, style: BorderStyle) -> (d: Self)
        ensures
            d.view() == (DividerView {
                variant: match style {
                    BorderStyle::NoBorder => DividerVariant::Faded,
                    BorderStyle::Single => DividerVariant::Solid,
                    BorderStyle::Double => DividerVariant::Double,
                    BorderStyle::Rounded => DividerVariant::Solid,
                    BorderStyle::Thick => DividerVariant::Heavy,
                },
                ..self.view()
            }),
    {
        let variant = match style {
            BorderStyle::NoBorder => DividerVariant::Faded,
            BorderStyle::Single => DividerVariant::Solid,
            BorderStyle::Double => DividerVariant::Double,
            BorderStyle::Rounded => DividerVariant::Solid,
            BorderStyle::Thick => DividerVariant::Heavy,
        };
        Divider { variant, ..self }
    }

    /// Sets the style, merged over the theme's border color.
    pub fn style(self, style: Style) -> (d: Self)
        ensures
            d.view() == (DividerView { style, ..self.view() }),
    {
        Divider { style, ..self }
    }

    /// Fixes the width.
    pub fn width(self, width: u16) -> (d: Self)
        ensures
            d.view() == (DividerView {
                constraints: ConstraintsView { min_width: width, max_width: Some(width), ..self.view().constraints },
                ..self.view()
            }),
    {
        let mut c = self.constraints;
        c.min_width = width;
        c.max_width = Some(width);
        Divider { constraints: c, ..self }
    }

    /// Fixes the height.
    pub fn height(self, height: u16) -> (d: Self)
        ensures
            d.view() == (DividerView {
                constraints: ConstraintsView { min_height: height, max_height: Some(height), ..self.view().constraints },
                ..self.view()
            }),
    {
        let mut c = self.constraints;
        c.min_height = height;
        c.max_height = Some(height);
        Divider { constraints: c, ..self }
    }

    /// Grows with the given flex factor.
    pub fn flex(self, flex: Flex) -> (d: Self)
        ensures
            d.view() == (DividerView {
                constraints: ConstraintsView { flex: Some(flex@), ..self.view().constraints },
                ..self.view()
            }),
    {
        let mut c = self.constraints;
        c.flex = Some(flex);
        Divider { constraints: c, ..self }
    }

    /// Fills all the space available.
    pub fn fill(self) -> (d: Self)
        ensures
            d.view() == (DividerView { constraints: fill_view(), ..self.view() }),
    {
        Divider { constraints: Constraints::fill(), ..self }
    }

    /// The style the line is drawn with: the divider's style over the theme's
    /// border color.
    pub fn line_style(&self, theme: &Theme) -> (s: Style)
        ensures
            s == merged(self.view().style, styled(Some(theme.colors.border), None, false)),
    {
        self.style.merge(make_style(Some(theme.colors.border), None, false))
    }

    /// The horizontal line `width` wide with `text` set in it.
    pub fn render_horizontal_with_text(&self, width: u16, line_char: char, text: &str) -> (line: String)
        ensures
            line@ == line_with_text(
                line_char,
                width as int,
                text@,
                self.view().text_spacing as int,
                self.view().text_position,
            ),
    {
        let w = width as usize;
        let tw = str_width(text);
        let spacing = self.text_spacing as usize;
        let mut line = String::new();
        if tw >= w || tw + spacing * 2 >= w {
            push_repeated(&mut line, line_char, w);
            return line;
        }
        let total = tw + spacing * 2;
        let (l, r) = match self.text_position {
            DividerTextPosition::Left => (spacing, if w > total + spacing {
                w - (total + spacing)
            } else {
                0
            }),
            DividerTextPosition::Center => {
                let remaining = w - total;
                let left = remaining / 2;
                (left, remaining - left)
            },
            DividerTextPosition::Right => (if w > total + spacing {
                w - (total + spacing)
            } else {
                0
            }, spacing),
        };
        push_repeated(&mut line, line_char, l);
        push_repeated(&mut line, ' ', spacing);
        push_str(&mut line, text);
        push_repeated(&mut line, ' ', spacing);
        push_repeated(&mut line, line_char, r);
        line
    }

    /// The rows drawn in an area `width` by `height`: one line (with the text,
    /// if any) for a horizontal divider, `height` one-character rows for a
    /// vertical one; nothing in an empty area.
    pub fn render_lines(&self, width: u16, height: u16) -> (rows: Vec<String>)
        ensures
            (width == 0 || height == 0) ==> rows@.len() == 0,
            (width > 0 && height > 0 && self.view().direction == DividerDirection::Horizontal) ==> rows@.len() == 1
                && rows@[0]@ == match self.view().text {
                Some(t) => line_with_text(
                    variant_chars(self.view().variant).0,
                    width as int,
                    t,
                    self.view().text_spacing as int,
                    self.view().text_position,
                ),
                None => repeated(variant_chars(self.view().variant).0, width as nat),
            },
            (width > 0 && height > 0 && self.view().direction == DividerDirection::Vertical) ==> rows@.len()
                == height && forall|i: int| 0 <= i < height ==> (#[trigger] rows@[i])@ == seq![
                variant_chars(self.view().variant).1],
    {
        let mut rows: Vec<String> = Vec::new();
        if width == 0 || height == 0 {
            return rows;
        }
        let (h_char, v_char) = self.variant.chars();
        match self.direction {
            DividerDirection::Horizontal => {
                match &self.text {
                    Some(t) => {
                        let line = self.render_horizontal_with_text(width, h_char, t.as_str());
                        rows.push(line);
                    },
                    None => {
                        let mut line = String::new();
                        push_repeated(&mut line, h_char, width as usize);
                        proof {
                            assert(line@ =~= repeated(h_char, width as nat));
                        }
                        rows.push(line);
                    },
                }
            },
            DividerDirection::Vertical => {
                let mut y: u16 = 0;
                while y < height
                    invariant
                        y <= height,
                        rows@.len() == y,
                        forall|i: int| 0 <= i < y ==> (#[trigger] rows@[i])@ == seq![v_char],
                    decreases height - y,
                {
                    let mut cell = String::new();
                    push_char(&mut cell, v_char);
                    proof {
                        assert(cell@ =~= seq![v_char]);
                    }
                    rows.push(cell);
                    y = y + 1;
                }
            },
        }
        rows
    }
}

impl<M> Default for Divider<M> {
    fn default() -> (d: Self)
        ensures
            d.view().direction == DividerDirection::Horizontal,
            d.view().variant == DividerVariant::Solid,
            d.view().text.is_none(),
            d.view().text_spacing == 1,
            d.view().constraints == crate::layout::content_view(),
    {
        Divider::new()
    }
}

impl<M> Widget<M> for Divider<M> {
    /// It takes no focus.
    fn focusable(&self) -> (r: bool) {
        false
    }

    /// It is never focused.
    fn is_focused(&self) -> (r: bool) {
        false
    }

    /// It keeps no focus flag.
    fn set_focused(&mut self, _focused: bool) {
    }

    /// A divider passes over every event.
    open spec fn passes_over(&self, _event: Event) -> bool {
        true
    }

    /// A divider handles no event.
    fn handle_event(&mut self, _event: &Event) -> (r: EventResult<M>)
        ensures
            r is Ignored,
            final(self).view() == old(self).view(),
    {
        EventResult::Ignored
    }

    /// The sizes set on the divider, if any were (a maximum or a flex factor);
    /// else a horizontal divider fills the width on one row and a vertical one
    /// the height in one column.
    fn constraints(&self) -> (c: Constraints)
        ensures
            ({
                let v = self.view().constraints;
                if v.max_width.is_some() || v.max_height.is_some() || v.flex.is_some() {
                    c@ == v
                } else if self.view().direction == DividerDirection::Horizontal {
                    c@ == (ConstraintsView {
                        min_width: 1,
                        max_width: None,
                        min_height: 1,
                        max_height: Some(1),
                        flex: Some(seq!['1', '.', '0']),
                    })
                } else {
                    c@ == (ConstraintsView {
                        min_width: 1,
                        max_width: Some(1),
                        min_height: 1,
                        max_height: None,
                        flex: None,
                    })
                }
            }),
    {
        if self.constraints.max_width.is_some() || self.constraints.max_height.is_some()
            || self.constraints.flex.is_some() {
            return self.constraints.copy();
        }
        match self.direction {
            DividerDirection::Horizontal => Constraints {
                min_width: 1,
                max_width: None,
                min_height: 1,
                max_height: Some(1),
                flex: Some(Flex::one()),
            },
            DividerDirection::Vertical => Constraints {
                min_width: 1,
                max_width: Some(1),
                min_height: 1,
                max_height: None,
                flex: None,
            },
        }
    }
}

/// A new solid horizontal divider.
pub fn divider<M>() -> (d: Divider<M>)
    ensures
        d.view().direction == DividerDirection::Horizontal,
        d.view().variant == DividerVariant::Solid,
        d.view().text.is_none(),
        d.view().text_spacing == 1,
        d.view().constraints == crate::layout::content_view(),
{
    Divider::new()
}

} // verus!
