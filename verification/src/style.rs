//! Visual style values: colors, text modifiers, styles, borders and spacing.

use vstd::prelude::*;

verus! {

/// Terminal colors.
#[derive(Debug, Clone, Copy, PartialEq, Eq, Structural)]
pub enum Color {
    Black,
    Red,
    Green,
    Yellow,
    Blue,
    Magenta,
    Cyan,
    White,
    /// RGB color (true color)
    Rgb(u8, u8, u8),
    /// 256-color palette index
    Indexed(u8),
}

/// Bit of the bold modifier.
pub const BOLD_BIT: u8 = 1;

/// Bit of the dim modifier.
pub const DIM_BIT: u8 = 2;

/// Bit of the italic modifier.
pub const ITALIC_BIT: u8 = 4;

/// Bit of the underline modifier.
pub const UNDERLINED_BIT: u8 = 8;

/// Bit of the reversed modifier.
pub const REVERSED_BIT: u8 = 16;

/// Text modifiers, a set of flags held as bits.
#[derive(Debug, Clone, Copy, PartialEq, Eq, Structural)]
pub struct TextModifiers {
    bits: u8,
}

impl TextModifiers {
    /// The bits of the set.
    pub closed spec fn bits(self) -> u8 {
        self.bits
    }

    /// Whether the flag `flag` is in the set.
    pub open spec fn has(self, flag: u8) -> bool {
        self.bits() & flag != 0
    }

    /// The empty set.
    pub fn empty() -> (m: Self)
        ensures
            m == no_modifiers(),
            m.bits() == 0,
    {
        Self { bits: 0 }
    }

    /// The set with bold added.
    pub fn with_bold(self) -> (m: Self)
        ensures
            m.bits() == self.bits() | BOLD_BIT,
            m == flagged(self, BOLD_BIT),
    {
        Self { bits: self.bits | BOLD_BIT }
    }

    /// The set with dim added.
    pub fn with_dim(self) -> (m: Self)
        ensures
            m.bits() == self.bits() | DIM_BIT,
            m == flagged(self, DIM_BIT),
    {
        Self { bits: self.bits | DIM_BIT }
    }

    /// The set with italic added.
    pub fn with_italic(self) -> (m: Self)
        ensures
            m.bits() == self.bits() | ITALIC_BIT,
            m == flagged(self, ITALIC_BIT),
    {
        Self { bits: self.bits | ITALIC_BIT }
    }

    /// The set with underline added.
    pub fn with_underlined(self) -> (m: Self)
        ensures
            m.bits() == self.bits() | UNDERLINED_BIT,
            m == flagged(self, UNDERLINED_BIT),
    {
        Self { bits: self.bits | UNDERLINED_BIT }
    }

    /// The set with reversed added.
    pub fn with_reversed(self) -> (m: Self)
        ensures
            m.bits() == self.bits() | REVERSED_BIT,
            m == flagged(self, REVERSED_BIT),
    {
        Self { bits: self.bits | REVERSED_BIT }
    }

    pub fn contains_bold(&self) -> (b: bool)
        ensures
            b == self.has(BOLD_BIT),
    {
        self.bits & BOLD_BIT != 0
    }

    pub fn contains_italic(&self) -> (b: bool)
        ensures
            b == self.has(ITALIC_BIT),
    {
        self.bits & ITALIC_BIT != 0
    }

    pub fn contains_underlined(&self) -> (b: bool)
        ensures
            b == self.has(UNDERLINED_BIT),
    {
        self.bits & UNDERLINED_BIT != 0
    }

    pub fn is_empty(&self) -> (b: bool)
        ensures
            b == (self.bits() == 0),
    {
        self.bits == 0
    }
}

/// The empty set of modifiers.
pub closed spec fn no_modifiers() -> TextModifiers {
    TextModifiers { bits: 0 }
}

/// The set of modifiers is determined by its bits.
pub proof fn lemma_modifiers_bits(a: TextModifiers, b: TextModifiers)
    ensures
        no_modifiers().bits() == 0,
        (a.bits() == b.bits()) == (a == b),
{
}

/// The set `m` with the flag bits `f` added.
pub closed spec fn flagged(m: TextModifiers, f: u8) -> TextModifiers {
    TextModifiers { bits: m.bits | f }
}

/// The bits of `flagged(m, f)` are those of `m` with `f` added.
pub proof fn lemma_flagged_bits(m: TextModifiers, f: u8)
    ensures
        flagged(m, f).bits() == m.bits() | f,
{
}

/// The style `s` with the modifier flag `f` added.
pub open spec fn style_with_flag(s: Style, f: u8) -> Style {
    Style { modifiers: flagged(s.modifiers, f), ..s }
}

/// The set holding bold alone.
pub closed spec fn bold_modifiers() -> TextModifiers {
    TextModifiers { bits: BOLD_BIT }
}

/// A style with the given colors, bold or with no modifiers.
pub open spec fn styled(fg: Option<Color>, bg: Option<Color>, bold: bool) -> Style {
    Style {
        fg_color: fg,
        bg_color: bg,
        modifiers: if bold {
            bold_modifiers()
        } else {
            no_modifiers()
        },
    }
}

/// Adding bold to a style without modifiers gives the bold set.
pub proof fn lemma_bold_of_plain(m: TextModifiers, r: TextModifiers)
    requires
        m.bits() == 0,
        r.bits() == m.bits() | BOLD_BIT,
    ensures
        r == bold_modifiers(),
        m == no_modifiers(),
{
    assert(0u8 | 1u8 == 1u8) by (bit_vector);
}

/// One of the five modifier flags.
pub open spec fn is_flag(f: u8) -> bool {
    f == BOLD_BIT || f == DIM_BIT || f == ITALIC_BIT || f == UNDERLINED_BIT || f == REVERSED_BIT
}

/// Adding a flag makes it present and leaves every other flag as it was.
pub proof fn law_add_flag(m: u8, f: u8, g: u8)
    requires
        is_flag(f),
        is_flag(g),
    ensures
        (m | f) & f != 0,
        f != g ==> (((m | f) & g != 0) == (m & g != 0)),
        (m | f) != 0,
{
    assert((m | 1) & 1 != 0 && (m | 2) & 2 != 0 && (m | 4) & 4 != 0 && (m | 8) & 8 != 0 && (m
        | 16) & 16 != 0) by (bit_vector);
    assert(((m | 1) & 2 != 0) == (m & 2 != 0) && ((m | 1) & 4 != 0) == (m & 4 != 0) && ((m | 1)
        & 8 != 0) == (m & 8 != 0) && ((m | 1) & 16 != 0) == (m & 16 != 0)) by (bit_vector);
    assert(((m | 2) & 1 != 0) == (m & 1 != 0) && ((m | 2) & 4 != 0) == (m & 4 != 0) && ((m | 2)
        & 8 != 0) == (m & 8 != 0) && ((m | 2) & 16 != 0) == (m & 16 != 0)) by (bit_vector);
    assert(((m | 4) & 1 != 0) == (m & 1 != 0) && ((m | 4) & 2 != 0) == (m & 2 != 0) && ((m | 4)
        & 8 != 0) == (m & 8 != 0) && ((m | 4) & 16 != 0) == (m & 16 != 0)) by (bit_vector);
    assert(((m | 8) & 1 != 0) == (m & 1 != 0) && ((m | 8) & 2 != 0) == (m & 2 != 0) && ((m | 8)
        & 4 != 0) == (m & 4 != 0) && ((m | 8) & 16 != 0) == (m & 16 != 0)) by (bit_vector);
    assert(((m | 16) & 1 != 0) == (m & 1 != 0) && ((m | 16) & 2 != 0) == (m & 2 != 0) && ((m
        | 16) & 4 != 0) == (m & 4 != 0) && ((m | 16) & 8 != 0) == (m & 8 != 0)) by (bit_vector);
    assert((m | 1) != 0 && (m | 2) != 0 && (m | 4) != 0 && (m | 8) != 0 && (m | 16) != 0)
        by (bit_vector);
}

/// The empty set holds no flag.
pub proof fn law_empty_has_no_flag(f: u8)
    ensures
        0u8 & f == 0,
{
    assert(0u8 & f == 0) by (bit_vector);
}

/// The set that `TextModifiers::empty()` followed by the builder calls adding
/// the flags `fs`, in order, gives (each of `with_bold`, `with_dim`,
/// `with_italic`, `with_underlined` and `with_reversed` adds its own flag).
pub open spec fn built_modifiers(fs: Seq<u8>) -> TextModifiers
    decreases fs.len(),
{
    if fs.len() == 0 {
        no_modifiers()
    } else {
        flagged(built_modifiers(fs.drop_last()), fs.last())
    }
}

/// After any sequence of builder calls on the empty set, a flag is present
/// exactly when one of the calls added it (so `contains_bold`,
/// `contains_italic` and `contains_underlined` hold exactly when `with_bold`,
/// `with_italic` or `with_underlined` was called), and the set is empty
/// exactly when no builder was called.
pub proof fn law_builders_set_their_flags(fs: Seq<u8>, g: u8)
    requires
        forall|i: int| 0 <= i < fs.len() ==> is_flag(#[trigger] fs[i]),
        is_flag(g),
    ensures
        built_modifiers(fs).has(g) <==> fs.contains(g),
        (built_modifiers(fs).bits() == 0) <==> fs.len() == 0,
    decreases fs.len(),
{
    if fs.len() == 0 {
        law_empty_has_no_flag(g);
        lemma_modifiers_bits(no_modifiers(), no_modifiers());
    } else {
        let rest = fs.drop_last();
        let f = fs.last();
        assert(is_flag(fs[fs.len() - 1]));
        assert forall|i: int| 0 <= i < rest.len() implies is_flag(#[trigger] rest[i]) by {
            assert(rest[i] == fs[i]);
        }
        law_builders_set_their_flags(rest, g);
        lemma_flagged_bits(built_modifiers(rest), f);
        law_add_flag(built_modifiers(rest).bits(), f, g);
        if fs.contains(g) {
            let i = choose|i: int| 0 <= i < fs.len() && fs[i] == g;
            if i < fs.len() - 1 {
                assert(rest[i] == g);
            }
        }
        if rest.contains(g) {
            let i = choose|i: int| 0 <= i < rest.len() && rest[i] == g;
            assert(fs[i] == g);
        }
        if f == g {
            assert(fs[fs.len() - 1] == g);
        }
    }
}

/// Widget style: visual properties only (colors and text modifiers).
#[derive(Debug, Clone, Copy, PartialEq, Eq, Structural)]
pub struct Style {
    pub fg_color: Option<Color>,
    pub bg_color: Option<Color>,
    pub modifiers: TextModifiers,
}

/// A style with the given colors and no modifiers.
pub open spec fn plain_style(fg: Option<Color>, bg: Option<Color>) -> Style {
    Style { fg_color: fg, bg_color: bg, modifiers: no_modifiers() }
}

/// `a` unless it is `None`, then `b`.
pub open spec fn or_else<T>(a: Option<T>, b: Option<T>) -> Option<T> {
    if a.is_some() {
        a
    } else {
        b
    }
}

/// The style that `merge` gives: `a`'s values where set, `b`'s otherwise.
pub open spec fn merged(a: Style, b: Style) -> Style {
    Style {
        fg_color: or_else(a.fg_color, b.fg_color),
        bg_color: or_else(a.bg_color, b.bg_color),
        modifiers: if a.modifiers.bits() == 0 {
            b.modifiers
        } else {
            a.modifiers
        },
    }
}

impl Style {
    /// The style with nothing set.
    pub fn default() -> (s: Self)
        ensures
            s == plain_style(None, None),
    {
        Self { fg_color: None, bg_color: None, modifiers: TextModifiers::empty() }
    }

    pub fn fg(self, color: Color) -> (s: Self)
        ensures
            s == (Style { fg_color: Some(color), ..self }),
    {
        Style { fg_color: Some(color), ..self }
    }

    pub fn bg(self, color: Color) -> (s: Self)
        ensures
            s == (Style { bg_color: Some(color), ..self }),
    {
        Style { bg_color: Some(color), ..self }
    }

    pub fn bold(self) -> (s: Self)
        ensures
            s == style_with_flag(self, BOLD_BIT),
            s.fg_color == self.fg_color,
            s.bg_color == self.bg_color,
            s.modifiers.bits() == self.modifiers.bits() | BOLD_BIT,
    {
        Style { modifiers: self.modifiers.with_bold(), ..self }
    }

    pub fn italic(self) -> (s: Self)
        ensures
            s == style_with_flag(self, ITALIC_BIT),
            s.fg_color == self.fg_color,
            s.bg_color == self.bg_color,
            s.modifiers.bits() == self.modifiers.bits() | ITALIC_BIT,
    {
        Style { modifiers: self.modifiers.with_italic(), ..self }
    }

    pub fn underlined(self) -> (s: Self)
        ensures
            s == style_with_flag(self, UNDERLINED_BIT),
            s.fg_color == self.fg_color,
            s.bg_color == self.bg_color,
            s.modifiers.bits() == self.modifiers.bits() | UNDERLINED_BIT,
    {
        Style { modifiers: self.modifiers.with_underlined(), ..self }
    }

    /// Merges this style with another, preferring this style's values when set.
    pub fn merge(self, other: Style) -> (s: Self)
        ensures
            s == merged(self, other),
    {
        let fg_color = match self.fg_color {
            Some(c) => Some(c),
            None => other.fg_color,
        };
        let bg_color = match self.bg_color {
            Some(c) => Some(c),
            None => other.bg_color,
        };
        let modifiers = if self.modifiers.is_empty() {
            other.modifiers
        } else {
            self.modifiers
        };
        Style { fg_color, bg_color, modifiers }
    }

    /// Whether no value is set.
    pub fn is_empty(&self) -> (b: bool)
        ensures
            b == (self.fg_color.is_none() && self.bg_color.is_none() && self.modifiers.bits()
                == 0),
    {
        self.fg_color.is_none() && self.bg_color.is_none() && self.modifiers.is_empty()
    }
}

/// `fg` on `bg` (either optional), bold or not.
pub fn make_style(fg: Option<Color>, bg: Option<Color>, bold: bool) -> (s: Style)
    ensures
        s == styled(fg, bg, bold),
{
    let mut s = Style::default();
    s.fg_color = fg;
    s.bg_color = bg;
    if bold {
        let m = s.modifiers;
        let b = s.bold();
        proof {
            lemma_modifiers_bits(m, no_modifiers());
            lemma_bold_of_plain(m, b.modifiers);
        }
        b
    } else {
        proof {
            lemma_modifiers_bits(s.modifiers, no_modifiers());
        }
        s
    }
}

/// The empty style is a left and right identity of `merge`.
pub proof fn law_merge_identity(a: Style)
    ensures
        merged(plain_style(None, None), a) == a,
        merged(a, plain_style(None, None)) == a,
{
    lemma_modifiers_bits(a.modifiers, no_modifiers());
}

/// `merge` is associative: merging in steps gives the same style in any grouping.
pub proof fn law_merge_associative(a: Style, b: Style, c: Style)
    ensures
        merged(merged(a, b), c) == merged(a, merged(b, c)),
{
}

/// A style merged with itself is unchanged.
pub proof fn law_merge_idempotent(a: Style)
    ensures
        merged(a, a) == a,
{
}

/// Border style variants.
#[derive(Debug, Clone, Copy, PartialEq, Eq, Structural)]
pub enum BorderStyle {
    /// No border (drawn with spaces)
    NoBorder,
    /// ┌─┐│└─┘
    Single,
    /// ╔═╗║╚═╝
    Double,
    /// ╭─╮│╰─╯
    Rounded,
    /// ┏━┓┃┗━┛
    Thick,
}

/// Box-drawing character set for borders and layouts.
#[derive(Debug, Clone, Copy, PartialEq, Eq, Structural)]
pub struct BorderChars {
    pub top_left: char,
    pub top_right: char,
    pub bottom_left: char,
    pub bottom_right: char,
    pub horizontal: char,
    pub vertical: char,
    /// T-junction pointing down (e.g. ┬)
    pub top_junction: char,
    /// T-junction pointing up (e.g. ┴)
    pub bottom_junction: char,
    /// T-junction pointing right (e.g. ├)
    pub left_junction: char,
    /// T-junction pointing left (e.g. ┤)
    pub right_junction: char,
    /// Cross/intersection character (e.g. ┼)
    pub cross: char,
}

/// The eleven characters of a set, in field order.
pub open spec fn border_chars_of(
    a: char,
    b: char,
    c: char,
    d: char,
    e: char,
    f: char,
    g: char,
    h: char,
    i: char,
    j: char,
    k: char,
) -> BorderChars {
    BorderChars {
        top_left: a,
        top_right: b,
        bottom_left: c,
        bottom_right: d,
        horizontal: e,
        vertical: f,
        top_junction: g,
        bottom_junction: h,
        left_junction: i,
        right_junction: j,
        cross: k,
    }
}

/// The characters that each border style draws with.
pub open spec fn border_chars_spec(s: BorderStyle) -> BorderChars {
    match s {
        BorderStyle::NoBorder => border_chars_of(' ', ' ', ' ', ' ', ' ', ' ', ' ', ' ', ' ', ' ', ' '),
        BorderStyle::Single => border_chars_of(
            '┌',
            '┐',
            '└',
            '┘',
            '─',
            '│',
            '┬',
            '┴',
            '├',
            '┤',
            '┼',
        ),
        BorderStyle::Double => border_chars_of(
            '╔',
            '╗',
            '╚',
            '╝',
            '═',
            '║',
            '╦',
            '╩',
            '╠',
            '╣',
            '╬',
        ),
        BorderStyle::Rounded => border_chars_of(
            '╭',
            '╮',
            '╰',
            '╯',
            '─',
            '│',
            '┬',
            '┴',
            '├',
            '┤',
            '┼',
        ),
        BorderStyle::Thick => border_chars_of(
            '┏',
            '┓',
            '┗',
            '┛',
            '━',
            '┃',
            '┳',
            '┻',
            '┣',
            '┫',
            '╋',
        ),
    }
}

impl BorderStyle {
    /// The box-drawing characters for this style.
    pub fn chars(&self) -> (c: BorderChars)
        ensures
            c == border_chars_spec(*self),
    {
        match self {
            BorderStyle::NoBorder => BorderChars::none(),
            BorderStyle::Single => BorderChars {
                top_left: '┌',
                top_right: '┐',
                bottom_left: '└',
                bottom_right: '┘',
                horizontal: '─',
                vertical: '│',
                top_junction: '┬',
                bottom_junction: '┴',
                left_junction: '├',
                right_junction: '┤',
                cross: '┼',
            },
            BorderStyle::Double => BorderChars {
                top_left: '╔',
                top_right: '╗',
                bottom_left: '╚',
                bottom_right: '╝',
                horizontal: '═',
                vertical: '║',
                top_junction: '╦',
                bottom_junction: '╩',
                left_junction: '╠',
                right_junction: '╣',
                cross: '╬',
            },
            BorderStyle::Rounded => BorderChars {
                top_left: '╭',
                top_right: '╮',
                bottom_left: '╰',
                bottom_right: '╯',
                horizontal: '─',
                vertical: '│',
                // rounded corners have no junctions of their own: the single ones are used
                top_junction: '┬',
                bottom_junction: '┴',
                left_junction: '├',
                right_junction: '┤',
                cross: '┼',
            },
            BorderStyle::Thick => BorderChars {
                top_left: '┏',
                top_right: '┓',
                bottom_left: '┗',
                bottom_right: '┛',
                horizontal: '━',
                vertical: '┃',
                top_junction: '┳',
                bottom_junction: '┻',
                left_junction: '┣',
                right_junction: '┫',
                cross: '╋',
            },
        }
    }
}

impl BorderChars {
    /// An empty border character set (all spaces).
    pub fn none() -> (c: Self)
        ensures
            c == border_chars_spec(BorderStyle::NoBorder),
    {
        Self {
            top_left: ' ',
            top_right: ' ',
            bottom_left: ' ',
            bottom_right: ' ',
            horizontal: ' ',
            vertical: ' ',
            top_junction: ' ',
            bottom_junction: ' ',
            left_junction: ' ',
            right_junction: ' ',
            cross: ' ',
        }
    }
}

/// Spacing inside a widget's border, in cells.
#[derive(Debug, Clone, Copy, PartialEq, Eq, Structural)]
pub struct Padding {
    pub top: u16,
    pub right: u16,
    pub bottom: u16,
    pub left: u16,
}

impl Padding {
    /// Padding with the four sides given (top, right, bottom, left).
    pub fn new(top: u16, right: u16, bottom: u16, left: u16) -> (p: Self)
        ensures
            p == (Padding { top, right, bottom, left }),
    {
        Padding { top, right, bottom, left }
    }

    /// The same padding on all four sides.
    pub fn uniform(n: u16) -> (p: Self)
        ensures
            p == (Padding { top: n, right: n, bottom: n, left: n }),
    {
        Padding { top: n, right: n, bottom: n, left: n }
    }
}

/// Spacing outside a widget, in cells.
#[derive(Debug, Clone, Copy, PartialEq, Eq, Structural)]
pub struct Margin {
    pub top: u16,
    pub right: u16,
    pub bottom: u16,
    pub left: u16,
}

#[derive(Debug, Clone, Copy, PartialEq, Eq, Structural)]
pub enum FontWeight {
    Normal,
    Bold,
}

#[derive(Debug, Clone, Copy, PartialEq, Eq, Structural)]
pub enum FontStyle {
    Normal,
    Italic,
}

#[derive(Debug, Clone, Copy, PartialEq, Eq, Structural)]
pub enum TextDecoration {
    NoDecoration,
    Underline,
}

#[derive(Debug, Clone, Copy, PartialEq, Eq, Structural)]
pub enum StyleDisplay {
    Block,
    Inline,
    Hidden,
}

#[derive(Debug, Clone, Copy, PartialEq, Eq, Structural)]
pub enum ElementSize {
    Auto,
    Fixed(u16),
}

} // verus!
