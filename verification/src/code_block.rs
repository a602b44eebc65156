//! A block of source code: line numbers, highlighted lines and diff markers,
//! with the syntax and color theme for highlighting chosen by name.

use vstd::prelude::*;
use std::collections::{HashMap, HashSet};
use std::marker::PhantomData;
use syntect::easy::HighlightLines;
use syntect::highlighting::{FontStyle, ThemeSet};
use syntect::parsing::SyntaxSet;
use syntect::util::LinesWithEndings;
use crate::event::{Event, EventResult, Widget};
use crate::layout::{Constraints, ConstraintsView};
use crate::style::{make_style, plain_style, style_with_flag, styled, Color, Style, BOLD_BIT, ITALIC_BIT, UNDERLINED_BIT};
use crate::text::{chars_of, decimal_text, line_bounds, lines, lowercase, owned, push_char, push_decimal, push_str, string_from_range, to_lowercase};
use crate::width::{str_width, text_width};
use vstd::utf8::encode_utf8;

verus! {

broadcast use vstd::std_specs::hash::group_hash_axioms;

/// How a line is marked in a diff.
#[derive(Debug, Clone, Copy, PartialEq, Eq, Structural)]
pub enum LineMarker {
    /// Unchanged
    Normal,
    /// Added (green)
    Added,
    /// Deleted (red)
    Deleted,
}

/// The name of the syntax that `syntect`'s default syntax set gives for a file
/// extension, if any.
pub uninterp spec fn default_syntax_for_extension(ext: Seq<char>) -> Option<Seq<char>>;

/// Whether `syntect`'s default syntax set has a syntax of this name.
pub uninterp spec fn default_syntax_named(name: Seq<char>) -> bool;

/// Whether `syntect`'s default theme set has a theme of this name.
pub uninterp spec fn default_theme_named(name: Seq<char>) -> bool;

/// The upper case of a character, as `char::to_uppercase` gives it.
pub uninterp spec fn upper_of(c: char) -> Seq<char>;

/// `SyntaxSet::load_defaults_newlines().find_syntax_by_extension(ext)`: the name
/// of the syntax for the extension. The result is named
/// `default_syntax_for_extension`; which syntaxes the set holds is left unstated.
#[verifier::external_body]
fn syntax_by_extension(ext: &str) -> (r: Option<String>)
    ensures
        match r {
            Some(s) => default_syntax_for_extension(ext@) == Some(s@),
            None => default_syntax_for_extension(ext@).is_none(),
        },
{
    syntect::parsing::SyntaxSet::load_defaults_newlines().find_syntax_by_extension(ext).map(|s| s.name.clone())
}

/// `SyntaxSet::load_defaults_newlines().find_syntax_by_name(name)`: whether the
/// default set has a syntax of that exact name (the crate compares names with
/// `==`). Which names it holds is named `default_syntax_named`.
#[verifier::external_body]
fn has_syntax_named(name: &str) -> (b: bool)
    ensures
        b == default_syntax_named(name@),
{
    syntect::parsing::SyntaxSet::load_defaults_newlines().find_syntax_by_name(name).is_some()
}

/// `ThemeSet::load_defaults().themes.contains_key(name)`: whether the default
/// theme set has a theme of that name, named `default_theme_named`.
#[verifier::external_body]
fn has_theme_named(name: &str) -> (b: bool)
    ensures
        b == default_theme_named(name@),
{
    syntect::highlighting::ThemeSet::load_defaults().themes.contains_key(name)
}

/// `char::to_uppercase`, collected into a string; named `upper_of`. For an
/// ASCII lowercase letter it is the matching uppercase letter.
#[verifier::external_body]
fn upper_case(c: char) -> (s: String)
    ensures
        s@ == upper_of(c),
        ('a' <= c && c <= 'z') ==> s@ == seq![((c as u32) - 32) as char],
{
    c.to_uppercase().collect()
}

/// A piece of highlighted code: its color, bold, italic and underline flags,
/// and its text.
pub type PieceView = (u8, u8, u8, bool, bool, bool, Seq<char>);

/// What `HighlightLines` gives over the default syntaxes and themes, with
/// the syntax and theme of those names: each line of the text with its ending,
/// and the line's pieces unless highlighting it failed.
pub uninterp spec fn highlighted_text(syntax: Seq<char>, theme: Seq<char>, content: Seq<char>) -> Seq<(Seq<char>, Option<Seq<PieceView>>)>;

/// The view of what `highlight_text` returns.
pub open spec fn highlight_view(r: Seq<(String, Option<Vec<(u8, u8, u8, bool, bool, bool, String)>>)>) -> Seq<(Seq<char>, Option<Seq<PieceView>>)> {
    Seq::new(
        r.len(),
        |i: int|
            (
                r[i].0@,
                match r[i].1 {
                    Some(v) => Some(
                        Seq::new(
                            v@.len(),
                            |j: int| (v@[j].0, v@[j].1, v@[j].2, v@[j].3, v@[j].4, v@[j].5, v@[j].6@),
                        ),
                    ),
                    None => None,
                },
            ),
    )
}

/// `HighlightLines` with the default syntax and theme of the given names, run
/// over `LinesWithEndings` of `content`: each line and, unless
/// `highlight_line` failed on it, its pieces (foreground color, bold, italic,
/// underline, text). The result is named `highlighted_text`; the syntax and
/// theme must exist, as the crate's lookup by name panics otherwise.
#[verifier::external_body]
fn highlight_text(syntax: &str, theme: &str, content: &str) -> (r: Vec<(String, Option<Vec<(u8, u8, u8, bool, bool, bool, String)>>)>)
    requires
        default_syntax_named(syntax@),
        default_theme_named(theme@),
    ensures
        highlight_view(r@) == highlighted_text(syntax@, theme@, content@),
{
    let ss = SyntaxSet::load_defaults_newlines();
    let ts = ThemeSet::load_defaults();
    let mut h = HighlightLines::new(ss.find_syntax_by_name(syntax).unwrap(), &ts.themes[theme]);
    LinesWithEndings::from(content).map(|line| (line.to_string(), h.highlight_line(line, &ss).ok().map(|ps| {
        ps.into_iter().map(|(st, t)| {
            let f = st.font_style;
            (st.foreground.r, st.foreground.g, st.foreground.b, f.contains(FontStyle::BOLD), f.contains(FontStyle::ITALIC), f.contains(FontStyle::UNDERLINE), t.to_string())
        }).collect()
    }))).collect()
}

/// The extension a language name is looked up by: the lowercase name, with the
/// names `rust`, `python`, `javascript`, `typescript`, `markdown` and `yaml`
/// mapped to `rs`, `py`, `js`, `ts`, `md` and `yml`.
pub open spec fn language_extension(lower: Seq<char>) -> Seq<char> {
    if lower == seq!['r', 'u', 's', 't'] {
        seq!['r', 's']
    } else if lower == seq!['p', 'y', 't', 'h', 'o', 'n'] {
        seq!['p', 'y']
    } else if lower == seq!['j', 'a', 'v', 'a', 's', 'c', 'r', 'i', 'p', 't'] {
        seq!['j', 's']
    } else if lower == seq!['t', 'y', 'p', 'e', 's', 'c', 'r', 'i', 'p', 't'] {
        seq!['t', 's']
    } else if lower == seq!['m', 'a', 'r', 'k', 'd', 'o', 'w', 'n'] {
        seq!['m', 'd']
    } else if lower == seq!['y', 'a', 'm', 'l'] {
        seq!['y', 'm', 'l']
    } else {
        lower
    }
}

/// A name with its first character in upper case.
pub open spec fn capitalized(name: Seq<char>) -> Seq<char> {
    if name.len() == 0 {
        Seq::empty()
    } else {
        upper_of(name[0]) + name.drop_first()
    }
}

/// The name of the plain-text syntax, the fallback.
pub open spec fn plain_text() -> Seq<char> {
    seq!['P', 'l', 'a', 'i', 'n', ' ', 'T', 'e', 'x', 't']
}

/// The syntax a language name selects: by extension, else by exact name, else
/// by capitalized name, else plain text.
pub open spec fn syntax_for(lang: Option<Seq<char>>) -> Seq<char> {
    match lang {
        None => plain_text(),
        Some(l) => match default_syntax_for_extension(language_extension(lowercase(l))) {
            Some(s) => s,
            None => if default_syntax_named(l) {
                l
            } else if default_syntax_named(capitalized(l)) {
                capitalized(l)
            } else {
                plain_text()
            },
        },
    }
}

/// The default theme name.
pub open spec fn default_theme() -> Seq<char> {
    seq!['b', 'a', 's', 'e', '1', '6', '-', 'o', 'c', 'e', 'a', 'n', '.', 'd', 'a', 'r', 'k']
}

/// The number of decimal digits of `n`.
pub open spec fn decimal_digits(n: nat) -> nat
    decreases n,
{
    if n < 10 {
        1
    } else {
        1 + decimal_digits(n / 10)
    }
}

/// The style of highlighted code: the syntax color, bold, italic and underline
/// as the theme says, and no background.
pub open spec fn code_style(r: u8, g: u8, b: u8, bold: bool, italic: bool, underline: bool) -> Style {
    let s0 = styled(Some(Color::Rgb(r, g, b)), None, false);
    let s1 = if bold {
        style_with_flag(s0, BOLD_BIT)
    } else {
        s0
    };
    let s2 = if italic {
        style_with_flag(s1, ITALIC_BIT)
    } else {
        s1
    };
    if underline {
        style_with_flag(s2, UNDERLINED_BIT)
    } else {
        s2
    }
}

/// The shape of a code block's content and settings.
pub struct CodeBlockView {
    pub content: Seq<char>,
    pub language: Option<Seq<char>>,
    pub show_line_numbers: bool,
    pub theme_name: Seq<char>,
    pub highlighted: Set<usize>,
    pub markers: Map<usize, LineMarker>,
    pub start_line: usize,
}

/// A code block.
pub struct CodeBlock<M = ()> {
    content: String,
    language: Option<String>,
    show_line_numbers: bool,
    theme_name: String,
    highlighted_lines: HashSet<usize>,
    line_markers: HashMap<usize, LineMarker>,
    start_line: usize,
    _marker: PhantomData<M>,
}

impl<M> CodeBlock<M> {
    pub closed spec fn view(&self) -> CodeBlockView {
        CodeBlockView {
            content: self.content@,
            language: match self.language {
                Some(l) => Some(l@),
                None => None,
            },
            show_line_numbers: self.show_line_numbers,
            theme_name: self.theme_name@,
            highlighted: self.highlighted_lines@,
            markers: self.line_markers@,
            start_line: self.start_line,
        }
    }

    /// A block of `content`: no language, no line numbers, the default theme,
    /// nothing highlighted or marked, numbered from one.
    pub fn new(content: &str) -> (c: Self)
        ensures
            c.view() == (CodeBlockView {
                content: content@,
                language: None,
                show_line_numbers: false,
                theme_name: default_theme(),
                highlighted: Set::empty(),
                markers: Map::empty(),
                start_line: 1,
            }),
    {
        proof {
            reveal_strlit("base16-ocean.dark");
            assert("base16-ocean.dark"@ =~= default_theme());
        }
        let c = CodeBlock {
            content: owned(content),
            language: None,
            show_line_numbers: false,
            theme_name: owned("base16-ocean.dark"),
            highlighted_lines: HashSet::new(),
            line_markers: HashMap::new(),
            start_line: 1,
            _marker: PhantomData,
        };
        proof {
            assert(c.view().highlighted =~= Set::empty());
            assert(c.view().markers =~= Map::empty());
        }
        c
    }

    /// Sets the language whose syntax highlights the code.
    pub fn language(self, lang: &str) -> (c: Self)
        ensures
            c.view() == (CodeBlockView { language: Some(lang@), ..self.view() }),
    {
        CodeBlock { language: Some(owned(lang)), ..self }
    }

    pub fn show_line_numbers(self, show: bool) -> (c: Self)
        ensures
            c.view() == (CodeBlockView { show_line_numbers: show, ..self.view() }),
    {
        CodeBlock { show_line_numbers: show, ..self }
    }

    /// Sets the color theme by name.
    pub fn theme(self, theme_name: &str) -> (c: Self)
        ensures
            c.view() == (CodeBlockView { theme_name: theme_name@, ..self.view() }),
    {
        CodeBlock { theme_name: owned(theme_name), ..self }
    }

    /// Sets the number of the first line (at least one).
    pub fn start_line(self, line: usize) -> (c: Self)
        ensures
            c.view() == (CodeBlockView { start_line: if line > 1 { line } else { 1 }, ..self.view() }),
    {
        let s = if line > 1 {
            line
        } else {
            1
        };
        CodeBlock { start_line: s, ..self }
    }

    /// Highlights line `line` (numbers start at one; zero is ignored).
    pub fn highlight_line(self, line: usize) -> (c: Self)
        ensures
            c.view() == (CodeBlockView {
                highlighted: if line > 0 {
                    self.view().highlighted.insert(line)
                } else {
                    self.view().highlighted
                },
                ..self.view()
            }),
    {
        let mut s = self;
        if line > 0 {
            s.highlighted_lines.insert(line);
        }
        s
    }

    /// Highlights each of `lines` (zero is ignored).
    pub fn highlight_lines(self, lines: Vec<usize>) -> (c: Self)
        ensures
            c.view() == (CodeBlockView {
                highlighted: highlighted_all(self.view().highlighted, lines@),
                ..self.view()
            }),
    {
        let mut s = self;
        let mut i: usize = 0;
        while i < lines.len()
            invariant
                i <= lines@.len(),
                s.view() == (CodeBlockView {
                    highlighted: highlighted_all(self.view().highlighted, lines@.take(i as int)),
                    ..self.view()
                }),
            decreases lines@.len() - i,
        {
            let line = lines[i];
            proof {
                assert(lines@.take(i as int + 1).drop_last() =~= lines@.take(i as int));
            }
            s = s.highlight_line(line);
            i = i + 1;
        }
        proof {
            assert(lines@.take(lines@.len() as int) =~= lines@);
        }
        s
    }

    /// Marks line `line` as added (zero is ignored).
    pub fn line_added(self, line: usize) -> (c: Self)
        ensures
            c.view() == (CodeBlockView {
                markers: if line > 0 {
                    self.view().markers.insert(line, LineMarker::Added)
                } else {
                    self.view().markers
                },
                ..self.view()
            }),
    {
        let mut s = self;
        if line > 0 {
            s.line_markers.insert(line, LineMarker::Added);
        }
        s
    }

    /// Marks line `line` as deleted (zero is ignored).
    pub fn line_deleted(self, line: usize) -> (c: Self)
        ensures
            c.view() == (CodeBlockView {
                markers: if line > 0 {
                    self.view().markers.insert(line, LineMarker::Deleted)
                } else {
                    self.view().markers
                },
                ..self.view()
            }),
    {
        let mut s = self;
        if line > 0 {
            s.line_markers.insert(line, LineMarker::Deleted);
        }
        s
    }

    /// Marks line `line`; marking it normal removes its mark (zero is ignored).
    pub fn mark_line(self, line: usize, marker: LineMarker) -> (c: Self)
        ensures
            c.view() == (CodeBlockView {
                markers: marked(self.view().markers, line, marker),
                ..self.view()
            }),
    {
        let mut s = self;
        if line > 0 {
            match marker {
                LineMarker::Normal => {
                    s.line_markers.remove(&line);
                },
                _ => {
                    s.line_markers.insert(line, marker);
                },
            }
        }
        s
    }

    /// Marks each line as given, in order (zero is ignored).
    pub fn mark_lines(self, lines: Vec<(usize, LineMarker)>) -> (c: Self)
        ensures
            c.view() == (CodeBlockView {
                markers: marked_all(self.view().markers, lines@),
                ..self.view()
            }),
    {
        let mut s = self;
        let mut i: usize = 0;
        while i < lines.len()
            invariant
                i <= lines@.len(),
                s.view() == (CodeBlockView {
                    markers: marked_all(self.view().markers, lines@.take(i as int)),
                    ..self.view()
                }),
            decreases lines@.len() - i,
        {
            let (line, marker) = lines[i];
            proof {
                assert(lines@.take(i as int + 1).drop_last() =~= lines@.take(i as int));
            }
            s = s.mark_line(line, marker);
            i = i + 1;
        }
        proof {
            assert(lines@.take(lines@.len() as int) =~= lines@);
        }
        s
    }

    /// The code.
    pub fn content(&self) -> (r: &str)
        ensures
            r@ == self.view().content,
    {
        self.content.as_str()
    }

    /// The name of the syntax the block is highlighted with.
    pub fn find_syntax(&self) -> (name: String)
        ensures
            name@ == syntax_for(self.view().language),
    {
        match &self.language {
            None => {
                proof {
                    reveal_strlit("Plain Text");
                    assert("Plain Text"@ =~= plain_text());
                }
                owned("Plain Text")
            },
            Some(lang) => {
                let lower = to_lowercase(lang.as_str());
                let ext = language_extension_of(lower.as_str());
                match syntax_by_extension(ext.as_str()) {
                    Some(s) => s,
                    None => {
                        if has_syntax_named(lang.as_str()) {
                            return owned(lang.as_str());
                        }
                        let cap = capitalize(lang.as_str());
                        if has_syntax_named(cap.as_str()) {
                            return cap;
                        }
                        proof {
                            reveal_strlit("Plain Text");
                            assert("Plain Text"@ =~= plain_text());
                        }
                        owned("Plain Text")
                    },
                }
            },
        }
    }

    /// The name of the theme the block is drawn with: its own when the default
    /// theme set has it, else the default.
    pub fn theme_in_use(&self) -> (name: String)
        ensures
            name@ == if default_theme_named(self.view().theme_name) {
                self.view().theme_name
            } else {
                default_theme()
            },
    {
        if has_theme_named(self.theme_name.as_str()) {
            owned(self.theme_name.as_str())
        } else {
            proof {
                reveal_strlit("base16-ocean.dark");
                assert("base16-ocean.dark"@ =~= default_theme());
            }
            owned("base16-ocean.dark")
        }
    }

    /// The style of code the theme colors `(r, g, b)` with the given font flags.
    pub fn syntect_to_style(r: u8, g: u8, b: u8, bold: bool, italic: bool, underline: bool) -> (s: Style)
        ensures
            s == code_style(r, g, b, bold, italic, underline),
    {
        let mut s = make_style(Some(Color::Rgb(r, g, b)), None, false);
        if bold {
            s = s.bold();
        }
        if italic {
            s = s.italic();
        }
        if underline {
            s = s.underlined();
        }
        s
    }

    /// The columns the line numbers take: the digits of the last line number,
    /// a space, a separator and a space; none without line numbers or lines.
    pub fn line_number_width(&self) -> (w: usize)
        ensures
            w == if !self.view().show_line_numbers || lines(self.view().content).len() == 0 {
                0
            } else {
                (decimal_digits((self.view().start_line + lines(self.view().content).len() - 1) as nat) + 3) as int
            },
            w <= 42,
    {
        if !self.show_line_numbers {
            return 0;
        }
        let cs = chars_of(self.content.as_str());
        let bounds = line_bounds(cs.as_slice());
        let line_count = bounds.len();
        if line_count == 0 {
            return 0;
        }
        let max_line_number: u128 = self.start_line as u128 + line_count as u128 - 1;
        digit_count(max_line_number) + 3
    }
}

/// `n` spaces.
pub open spec fn spaces(n: nat) -> Seq<char> {
    Seq::new(n, |i: int| ' ')
}

/// How line `n` of a block looks: its background and the diff mark with its
/// color. An added line is green with `+`, a deleted one red with `-`; a
/// highlighted line is grey; other lines have neither.
pub open spec fn line_look(v: CodeBlockView, n: usize) -> (Option<Color>, char, Option<Color>) {
    if v.markers.contains_key(n) && v.markers[n] == LineMarker::Added {
        (Some(Color::Rgb(0, 64, 0)), '+', Some(Color::Green))
    } else if v.markers.contains_key(n) && v.markers[n] == LineMarker::Deleted {
        (Some(Color::Rgb(64, 0, 0)), '-', Some(Color::Red))
    } else if v.highlighted.contains(n) {
        (Some(Color::Rgb(40, 40, 40)), ' ', None)
    } else {
        (None, ' ', None)
    }
}

/// The gutter text of line `n`: its number right-aligned in `w` columns,
/// then a space and a bar.
pub open spec fn gutter(n: nat, w: nat) -> Seq<char> {
    let d = decimal_text(n);
    let pad = if d.len() < w {
        (w - d.len()) as nat
    } else {
        0
    };
    spaces(pad) + d + seq![' ', '│']
}

impl<M> CodeBlock<M> {
    /// How line `line_number` looks (see `line_look`).
    pub fn line_decoration(&self, line_number: usize) -> (r: (Option<Color>, char, Option<Color>))
        ensures
            r == line_look(self.view(), line_number),
    {
        let marker = match self.line_markers.get(&line_number) {
            Some(m) => Some(*m),
            None => None,
        };
        match marker {
            Some(LineMarker::Added) => (Some(Color::Rgb(0, 64, 0)), '+', Some(Color::Green)),
            Some(LineMarker::Deleted) => (Some(Color::Rgb(64, 0, 0)), '-', Some(Color::Red)),
            _ => {
                if self.highlighted_lines.contains(&line_number) {
                    (Some(Color::Rgb(40, 40, 40)), ' ', None)
                } else {
                    (None, ' ', None)
                }
            },
        }
    }

    /// The gutter text of line `line_number` when numbers are shown: the number
    /// right-aligned in the gutter less its bar (see `gutter`).
    pub fn line_number_label(&self, line_number: usize) -> (s: String)
        requires
            self.view().show_line_numbers,
            lines(self.view().content).len() > 0,
        ensures
            s@ == gutter(line_number as nat, (self.line_number_columns() - 3) as nat),
    {
        let lnw = self.line_number_width();
        proof {
            assert(lnw >= 3);
        }
        let w = lnw - 3;
        let mut digits = String::new();
        push_decimal(&mut digits, line_number as u64);
        let d = chars_of(digits.as_str()).len();
        let mut s = String::new();
        if d < w {
            let mut k: usize = 0;
            while k < w - d
                invariant
                    d < w,
                    k <= w - d,
                    s@ == spaces(k as nat),
                decreases w - d - k,
            {
                push_char(&mut s, ' ');
                k = k + 1;
                proof {
                    assert(s@ =~= spaces(k as nat));
                }
            }
        }
        push_str(&mut s, digits.as_str());
        push_char(&mut s, ' ');
        push_char(&mut s, '│');
        proof {
            assert(s@ =~= gutter(line_number as nat, w as nat));
        }
        s
    }

    /// The columns of the gutter (see `line_number_width`).
    pub open spec fn line_number_columns(&self) -> int {
        if !self.view().show_line_numbers || lines(self.view().content).len() == 0 {
            0
        } else {
            (decimal_digits((self.view().start_line + lines(self.view().content).len() - 1) as nat) + 3) as int
        }
    }
}

/// The widest of the first `k` lines, in columns.
pub open spec fn widest_line(ls: Seq<Seq<char>>, k: int) -> nat
    decreases k,
{
    if k <= 0 {
        0
    } else {
        let m = widest_line(ls, k - 1);
        if text_width(ls[k - 1]) > m {
            text_width(ls[k - 1])
        } else {
            m
        }
    }
}

impl<M> Widget<M> for CodeBlock<M> {
    /// It takes no focus.
    fn focusable(&self) -> (r: bool) {
        false
    }

    /// It is never focused.
    fn is_focused(&self) -> (r: bool) {
        false
    }

    /// It keeps no focus flag.
    fn set_focused(&mut self, _focused: bool) {
    }

    /// A code block passes over every event.
    open spec fn passes_over(&self, _event: Event) -> bool {
        true
    }

    /// A code block handles no event.
    fn handle_event(&mut self, _event: &Event) -> (r: EventResult<M>)
        ensures
            r is Ignored,
            final(self).view() == old(self).view(),
    {
        EventResult::Ignored
    }

    /// As wide as the line numbers and the widest line (modulo 2^16), one row
    /// per line (at least one, modulo 2^16).
    fn constraints(&self) -> (c: Constraints)
        ensures
            ({
                let ls = lines(self.view().content);
                let lnw = if !self.view().show_line_numbers || ls.len() == 0 {
                    0
                } else {
                    decimal_digits((self.view().start_line + ls.len() - 1) as nat) + 3
                };
                let w = ((lnw + widest_line(ls, ls.len() as int)) % 0x10000) as u16;
                let h = (if ls.len() > 1 {
                    ls.len()
                } else {
                    1
                }) as u16;
                c@ == (ConstraintsView { min_width: w, max_width: Some(w), min_height: h, max_height: Some(h), flex: None })
            }),
    {
        let lnw = self.line_number_width();
        let cs = chars_of(self.content.as_str());
        let bounds = line_bounds(cs.as_slice());
        let ghost ls = lines(cs@);
        let n = bounds.len();
        let mut widest: usize = 0;
        let mut i: usize = 0;
        while i < n
            invariant
                n == bounds@.len(),
                n == ls.len(),
                ls == lines(cs@),
                i <= n,
                widest == widest_line(ls, i as int),
                forall|j: int|
                    0 <= j < bounds@.len() ==> {
                        &&& (#[trigger] bounds@[j]).0 <= bounds@[j].1 <= cs@.len()
                        &&& cs@.subrange(bounds@[j].0 as int, bounds@[j].1 as int) == ls[j]
                    },
            decreases n - i,
        {
            let (a, b) = bounds[i];
            let line = string_from_range(cs.as_slice(), a, b);
            let w = str_width(line.as_str());
            if w > widest {
                widest = w;
            }
            i = i + 1;
        }
        let total: u128 = lnw as u128 + widest as u128;
        let w = (total % 0x10000) as u16;
        let count = if n > 1 {
            n
        } else {
            1
        };
        let h = count as u16;
        Constraints { min_width: w, max_width: Some(w), min_height: h, max_height: Some(h), flex: None }
    }
}

/// A new code block of `content`.
pub fn code_block<M>(content: &str) -> (c: CodeBlock<M>)
    ensures
        c.view() == (CodeBlockView {
            content: content@,
            language: None,
            show_line_numbers: false,
            theme_name: default_theme(),
            highlighted: Set::empty(),
            markers: Map::empty(),
            start_line: 1,
        }),
{
    CodeBlock::new(content)
}

/// The markers after marking `line` with `marker` (normal removes the mark;
/// line zero is ignored).
pub open spec fn marked(m: Map<usize, LineMarker>, line: usize, marker: LineMarker) -> Map<usize, LineMarker> {
    if line == 0 {
        m
    } else if marker == LineMarker::Normal {
        m.remove(line)
    } else {
        m.insert(line, marker)
    }
}

/// The highlighted lines after highlighting each of `lines` (zero ignored).
pub open spec fn highlighted_all(h: Set<usize>, lines: Seq<usize>) -> Set<usize>
    decreases lines.len(),
{
    if lines.len() == 0 {
        h
    } else if lines.last() > 0 {
        highlighted_all(h, lines.drop_last()).insert(lines.last())
    } else {
        highlighted_all(h, lines.drop_last())
    }
}

/// The markers after marking each line as given, in order.
pub open spec fn marked_all(m: Map<usize, LineMarker>, lines: Seq<(usize, LineMarker)>) -> Map<usize, LineMarker>
    decreases lines.len(),
{
    if lines.len() == 0 {
        m
    } else {
        marked(marked_all(m, lines.drop_last()), lines.last().0, lines.last().1)
    }
}

/// `10^k`.
pub open spec fn pow10(k: nat) -> nat
    decreases k,
{
    if k == 0 {
        1
    } else {
        10 * pow10((k - 1) as nat)
    }
}

/// A number below `10^k` has at most `k` digits (`k` at least one).
pub proof fn lemma_digits_bound(n: nat, k: nat)
    requires
        k >= 1,
        n < pow10(k),
    ensures
        decimal_digits(n) <= k,
    decreases k,
{
    if n >= 10 {
        assert(k >= 2) by {
            if k == 1 {
                reveal_with_fuel(pow10, 2);
                assert(pow10(1) == 10);
            }
        }
        assert(n / 10 < pow10((k - 1) as nat)) by (nonlinear_arith)
            requires
                n < pow10(k),
                pow10(k) == 10 * pow10((k - 1) as nat),
        ;
        lemma_digits_bound(n / 10, (k - 1) as nat);
    }
}

/// The digits of `n` in decimal.
pub fn digit_count(n: u128) -> (d: usize)
    ensures
        d == decimal_digits(n as nat),
        d <= 39,
{
    proof {
        reveal_with_fuel(pow10, 40);
        assert(pow10(39) == 1000000000000000000000000000000000000000);
        lemma_digits_bound(n as nat, 39);
    }
    let mut d: usize = 1;
    let mut m = n;
    while m >= 10
        invariant
            1 <= d <= 40,
            d + decimal_digits(m as nat) == decimal_digits(n as nat) + 1,
            decimal_digits(n as nat) <= 39,
        decreases m,
    {
        m = m / 10;
        d = d + 1;
    }
    d
}

/// The extension a language name is looked up by (see `language_extension`).
fn language_extension_of(lower: &str) -> (ext: String)
    ensures
        ext@ == language_extension(lower@),
{
    proof {
        reveal_strlit("rust");
        reveal_strlit("python");
        reveal_strlit("javascript");
        reveal_strlit("typescript");
        reveal_strlit("markdown");
        reveal_strlit("yaml");
        reveal_strlit("rs");
        reveal_strlit("py");
        reveal_strlit("js");
        reveal_strlit("ts");
        reveal_strlit("md");
        reveal_strlit("yml");
    }
    proof {
        assert("rust"@ =~= seq!['r', 'u', 's', 't']);
        assert("python"@ =~= seq!['p', 'y', 't', 'h', 'o', 'n']);
        assert("javascript"@ =~= seq!['j', 'a', 'v', 'a', 's', 'c', 'r', 'i', 'p', 't']);
        assert("typescript"@ =~= seq!['t', 'y', 'p', 'e', 's', 'c', 'r', 'i', 'p', 't']);
        assert("markdown"@ =~= seq!['m', 'a', 'r', 'k', 'd', 'o', 'w', 'n']);
        assert("yaml"@ =~= seq!['y', 'a', 'm', 'l']);
        assert("rs"@ =~= seq!['r', 's']);
        assert("py"@ =~= seq!['p', 'y']);
        assert("js"@ =~= seq!['j', 's']);
        assert("ts"@ =~= seq!['t', 's']);
        assert("md"@ =~= seq!['m', 'd']);
        assert("yml"@ =~= seq!['y', 'm', 'l']);
    }
    let cs = chars_of(lower);
    if crate::text::chars_eq_str(cs.as_slice(), "rust") {
        owned("rs")
    } else if crate::text::chars_eq_str(cs.as_slice(), "python") {
        owned("py")
    } else if crate::text::chars_eq_str(cs.as_slice(), "javascript") {
        owned("js")
    } else if crate::text::chars_eq_str(cs.as_slice(), "typescript") {
        owned("ts")
    } else if crate::text::chars_eq_str(cs.as_slice(), "markdown") {
        owned("md")
    } else if crate::text::chars_eq_str(cs.as_slice(), "yaml") {
        owned("yml")
    } else {
        owned(lower)
    }
}

/// The name with its first character in upper case.
fn capitalize(name: &str) -> (r: String)
    ensures
        r@ == capitalized(name@),
{
    let cs = chars_of(name);
    if cs.len() == 0 {
        return String::new();
    }
    let mut r = upper_case(cs[0]);
    let rest = string_from_range(cs.as_slice(), 1, cs.len());
    push_str(&mut r, rest.as_str());
    proof {
        assert(cs@.subrange(1, cs@.len() as int) =~= name@.drop_first());
    }
    r
}

/// `s` without the trailing run of `c`.
pub open spec fn trim_end(s: Seq<char>, c: char) -> Seq<char>
    decreases s.len(),
{
    if s.len() > 0 && s.last() == c {
        trim_end(s.drop_last(), c)
    } else {
        s
    }
}

/// The text of a piece as drawn: trailing newlines, then trailing carriage
/// returns, taken off.
pub open spec fn shown_text(s: Seq<char>) -> Seq<char> {
    trim_end(trim_end(s, '\n'), '\r')
}

/// `st` on the line background `bg`, where there is one.
pub open spec fn on_background(st: Style, bg: Option<Color>) -> Style {
    match bg {
        Some(b) => Style { bg_color: Some(b), ..st },
        None => st,
    }
}

/// What is drawn of a highlighted line on background `bg`: each piece in its
/// theme style on the background; a line whose highlighting failed as one
/// unstyled piece on the background.
pub open spec fn line_pieces(line: (Seq<char>, Option<Seq<PieceView>>), bg: Option<Color>) -> Seq<(Style, Seq<char>)> {
    match line.1 {
        Some(ps) => Seq::new(
            ps.len(),
            |j: int|
                (
                    on_background(code_style(ps[j].0, ps[j].1, ps[j].2, ps[j].3, ps[j].4, ps[j].5), bg),
                    shown_text(ps[j].6),
                ),
        ),
        None => seq![(on_background(plain_style(None, None), bg), shown_text(line.0))],
    }
}

/// The number of the `i`-th line of a block starting at `start` (kept at the
/// largest value rather than wrapping).
pub open spec fn line_number_at(start: usize, i: int) -> usize {
    if start + i > usize::MAX {
        usize::MAX
    } else {
        (start + i) as usize
    }
}

/// `s` with the trailing run of `c` taken off.
fn trimmed_end(cs: &Vec<char>, end: usize, c: char) -> (e: usize)
    requires
        end <= cs@.len(),
    ensures
        e <= end,
        cs@.subrange(0, e as int) == trim_end(cs@.subrange(0, end as int), c),
{
    let mut e = end;
    while e > 0 && cs[e - 1] == c
        invariant
            e <= end <= cs@.len(),
            trim_end(cs@.subrange(0, e as int), c) == trim_end(cs@.subrange(0, end as int), c),
        decreases e,
    {
        proof {
            assert(cs@.subrange(0, e as int).drop_last() =~= cs@.subrange(0, e - 1));
        }
        e = e - 1;
    }
    e
}

/// The text of a piece as drawn (see `shown_text`).
fn shown(t: &String) -> (r: String)
    ensures
        r@ == shown_text(t@),
{
    let cs = chars_of(t.as_str());
    let e1 = trimmed_end(&cs, cs.len(), '\n');
    let e2 = trimmed_end(&cs, e1, '\r');
    proof {
        assert(cs@.subrange(0, cs@.len() as int) =~= cs@);
    }
    string_from_range(cs.as_slice(), 0, e2)
}

impl<M> CodeBlock<M> {
    /// What is drawn of each line of the block (see `line_pieces`): the lines
    /// highlighted with the block's syntax and theme, each on the background of
    /// its line number. `None` when the default sets lack that syntax or theme.
    pub fn highlighted_lines(&self) -> (r: Option<Vec<Vec<(Style, String)>>>)
        ensures
            ({
                let v = self.view();
                let syntax = syntax_for(v.language);
                let theme = if default_theme_named(v.theme_name) {
                    v.theme_name
                } else {
                    default_theme()
                };
                match r {
                    None => !(default_syntax_named(syntax) && default_theme_named(theme)),
                    Some(out) => {
                        let h = highlighted_text(syntax, theme, v.content);
                        &&& default_syntax_named(syntax) && default_theme_named(theme)
                        &&& out@.len() == h.len()
                        &&& forall|i: int| 0 <= i < h.len() ==> {
                            let drawn = line_pieces(h[i], line_look(v, line_number_at(v.start_line, i)).0);
                            &&& (#[trigger] out@[i])@.len() == drawn.len()
                            &&& forall|j: int| 0 <= j < drawn.len() ==> (#[trigger] out@[i]@[j]).0 == drawn[j].0 && out@[i]@[j].1@ == drawn[j].1
                        }
                    },
                }
            }),
    {
        let syntax = self.find_syntax();
        let theme = self.theme_in_use();
        if !has_syntax_named(syntax.as_str()) || !has_theme_named(theme.as_str()) {
            return None;
        }
        let lines = highlight_text(syntax.as_str(), theme.as_str(), self.content.as_str());
        Some(self.style_highlighted(&lines))
    }

    /// What is drawn of each highlighted line `lines` (as syntect gives them;
    /// see `line_pieces`): each piece in its theme style, and every line on the
    /// background of its line number.
    pub fn style_highlighted(&self, lines: &Vec<(String, Option<Vec<(u8, u8, u8, bool, bool, bool, String)>>)>) -> (out: Vec<Vec<(Style, String)>>)
        ensures
            ({
                let h = highlight_view(lines@);
                &&& out@.len() == h.len()
                &&& forall|i: int| 0 <= i < h.len() ==> {
                    let drawn = line_pieces(h[i], line_look(self.view(), line_number_at(self.view().start_line, i)).0);
                    &&& (#[trigger] out@[i])@.len() == drawn.len()
                    &&& forall|j: int| 0 <= j < drawn.len() ==> (#[trigger] out@[i]@[j]).0 == drawn[j].0 && out@[i]@[j].1@ == drawn[j].1
                }
            }),
    {
        let ghost h = highlight_view(lines@);
        let mut out: Vec<Vec<(Style, String)>> = Vec::new();
        let mut i: usize = 0;
        while i < lines.len()
            invariant
                h == highlight_view(lines@),
                i <= lines@.len(),
                out@.len() == i,
                forall|k: int| 0 <= k < i ==> {
                    let drawn = line_pieces(h[k], line_look(self.view(), line_number_at(self.view().start_line, k)).0);
                    &&& (#[trigger] out@[k])@.len() == drawn.len()
                    &&& forall|j: int| 0 <= j < drawn.len() ==> (#[trigger] out@[k]@[j]).0 == drawn[j].0 && out@[k]@[j].1@ == drawn[j].1
                },
            decreases lines@.len() - i,
        {
            let number = self.start_line.saturating_add(i);
            let (bg, _, _) = self.line_decoration(number);
            let ghost drawn = line_pieces(h[i as int], bg);
            let mut row: Vec<(Style, String)> = Vec::new();
            match &lines[i].1 {
                Some(pieces) => {
                    let mut j: usize = 0;
                    while j < pieces.len()
                        invariant
                            j <= pieces@.len(),
                            h[i as int].1 == Some(Seq::new(
                                pieces@.len(),
                                |q: int| (pieces@[q].0, pieces@[q].1, pieces@[q].2, pieces@[q].3, pieces@[q].4, pieces@[q].5, pieces@[q].6@),
                            )),
                            drawn == line_pieces(h[i as int], bg),
                            row@.len() == j,
                            forall|q: int| 0 <= q < j ==> (#[trigger] row@[q]).0 == drawn[q].0 && row@[q].1@ == drawn[q].1,
                        decreases pieces@.len() - j,
                    {
                        let p = &pieces[j];
                        let mut st = Self::syntect_to_style(p.0, p.1, p.2, p.3, p.4, p.5);
                        match bg {
                            Some(b) => st = st.bg(b),
                            None => {},
                        }
                        let text = shown(&p.6);
                        row.push((st, text));
                        j = j + 1;
                    }
                },
                None => {
                    let mut st = Style::default();
                    match bg {
                        Some(b) => st = st.bg(b),
                        None => {},
                    }
                    let text = shown(&lines[i].0);
                    row.push((st, text));
                },
            }
            proof {
                assert(drawn.len() == row@.len());
            }
            out.push(row);
            proof {
                assert(out@[i as int] == row);
            }
            i = i + 1;
        }
        out
    }
}

/// The syntax a block with view `v` is highlighted with.
pub open spec fn block_syntax(v: CodeBlockView) -> Seq<char> {
    syntax_for(v.language)
}

/// The theme a block with view `v` is highlighted with: its own when the
/// default set has it, else the default one.
pub open spec fn block_theme(v: CodeBlockView) -> Seq<char> {
    if default_theme_named(v.theme_name) {
        v.theme_name
    } else {
        default_theme()
    }
}

/// A run of code drawn from a column (an empty run draws nothing).
pub struct CodePiece {
    pub x: u16,
    pub style: Style,
    pub text: String,
}

/// What is drawn on one line of a code block.
pub struct CodeRow {
    pub y: u16,
    /// The gutter text from column 0 and its style, when numbers are shown.
    pub gutter: Option<(String, Style)>,
    /// The diff marker's column, character (a space follows it) and style,
    /// when any line of the block is marked.
    pub marker: Option<(u16, char, Style)>,
    /// The runs of code, in order.
    pub pieces: Vec<CodePiece>,
    /// The fill after the code: its column, its width and its style, when the
    /// line has a background and room is left.
    pub fill: Option<(u16, u16, Style)>,
}

/// The runs of a drawn line as styles and characters.
pub open spec fn pieces_view(line: Seq<(Style, String)>) -> Seq<(Style, Seq<char>)> {
    line.map_values(|p: (Style, String)| (p.0, p.1@))
}

/// The length of `t` in bytes, as `str::len` gives it.
pub open spec fn byte_len(t: Seq<char>) -> int {
    encode_utf8(t).len() as usize as int
}

/// The column where run `j` of `line` starts when the first starts at `x0`:
/// each run moves on by its length in bytes, in 16-bit columns.
pub open spec fn piece_x(x0: int, line: Seq<(Style, Seq<char>)>, j: int) -> int
    decreases j,
{
    if j <= 0 {
        x0 % 0x10000
    } else {
        (piece_x(x0, line, j - 1) + byte_len(line[j - 1].1)) % 0x10000
    }
}

impl<M> CodeBlock<M> {
    /// Whether `row` is what line `i` of the block draws, with the runs `line`,
    /// in an area `width` wide: the gutter in grey on the line's background
    /// when numbers are shown; the diff marker after it in the marker's color
    /// when any line is marked; the runs one after another from there; and the
    /// rest of the line filled with the line's background, where it has one.
    pub open spec fn code_row_is(&self, row: CodeRow, i: int, line: Seq<(Style, Seq<char>)>, width: u16) -> bool {
        let v = self.view();
        let n = line_number_at(v.start_line, i);
        let (bg, mark, mark_fg) = line_look(v, n);
        let cols = self.line_number_columns();
        let marked = v.markers.len() > 0;
        let x0 = cols + if marked {
            2int
        } else {
            0
        };
        let end = piece_x(x0, line, line.len() as int);
        &&& row.y == i
        &&& (row.gutter is Some <==> v.show_line_numbers)
        &&& row.gutter matches Some(g) ==> g.0@ == gutter(n as nat, (cols - 3) as nat) && g.1 == styled(
            Some(Color::Rgb(100, 100, 100)),
            bg,
            false,
        )
        &&& row.marker == if marked {
            Some((cols as u16, mark, styled(mark_fg, bg, false)))
        } else {
            None
        }
        &&& row.pieces@.len() == line.len()
        &&& forall|j: int| 0 <= j < line.len() ==> (#[trigger] row.pieces@[j]).x == piece_x(x0, line, j)
            && row.pieces@[j].style == line[j].0 && row.pieces@[j].text@ == line[j].1
        &&& row.fill == match bg {
            Some(b) => if end < width {
                Some((end as u16, (width - end) as u16, styled(None, Some(b), false)))
            } else {
                None
            },
            None => None,
        }
    }

    /// What the block draws in a `width` by `height` area from its drawn lines
    /// `drawn` (as `highlighted_lines` gives them): one row per line from the
    /// top, as many as there are lines, each as `code_row_is` says.
    pub fn plan_rows(&self, drawn: &Vec<Vec<(Style, String)>>, width: u16, height: u16) -> (p: Vec<CodeRow>)
        requires
            (self.view().show_line_numbers && drawn@.len() > 0) ==> lines(self.view().content).len() > 0,
        ensures
            (width == 0 || height == 0) ==> p@.len() == 0,
            (width > 0 && height > 0) ==> p@.len() == if drawn@.len() < height {
                drawn@.len() as int
            } else {
                height as int
            },
            forall|i: int| 0 <= i < p@.len() ==> self.code_row_is(#[trigger] p@[i], i, pieces_view(drawn@[i]@), width),
    {
        let mut rows: Vec<CodeRow> = Vec::new();
        if width == 0 || height == 0 {
            return rows;
        }
        let cols = self.line_number_width();
        let marked = self.line_markers.len() != 0;
        let x0: u16 = cols as u16 + if marked {
            2
        } else {
            0
        };
        let n = drawn.len();
        let mut i: usize = 0;
        while i < n && i < height as usize
            invariant
                n == drawn@.len(),
                i <= n,
                i <= height,
                width > 0,
                cols == self.line_number_columns(),
                cols <= 42,
                marked == (self.view().markers.len() > 0),
                x0 == cols + if marked { 2int } else { 0 },
                (self.view().show_line_numbers && drawn@.len() > 0) ==> lines(self.view().content).len() > 0,
                rows@.len() == i,
                forall|q: int| 0 <= q < i ==> self.code_row_is(#[trigger] rows@[q], q, pieces_view(drawn@[q]@), width),
            decreases n - i,
        {
            let number = self.start_line.saturating_add(i);
            let (bg, mark, mark_fg) = self.line_decoration(number);
            let gutter = if self.show_line_numbers {
                Some((self.line_number_label(number), make_style(Some(Color::Rgb(100, 100, 100)), bg, false)))
            } else {
                None
            };
            let marker = if marked {
                Some((cols as u16, mark, make_style(mark_fg, bg, false)))
            } else {
                None
            };
            let line = &drawn[i];
            let ghost lv = pieces_view(line@);
            let mut pieces: Vec<CodePiece> = Vec::new();
            let mut x: u16 = x0;
            let mut j: usize = 0;
            while j < line.len()
                invariant
                    j <= line@.len(),
                    lv == pieces_view(line@),
                    x == piece_x(x0 as int, lv, j as int),
                    pieces@.len() == j,
                    forall|q: int| 0 <= q < j ==> (#[trigger] pieces@[q]).x == piece_x(x0 as int, lv, q)
                        && pieces@[q].style == lv[q].0 && pieces@[q].text@ == lv[q].1,
                decreases line@.len() - j,
            {
                let text = owned(line[j].1.as_str());
                let len = line[j].1.as_str().len();
                pieces.push(CodePiece { x, style: line[j].0, text });
                let next: u32 = (x as u32 + (len % 0x10000) as u32) % 0x10000;
                proof {
                    assert(lv[j as int].1 == line@[j as int].1@);
                    assert(len == byte_len(lv[j as int].1));
                    assert((x + len % 0x10000) % 0x10000 == (x + len) % 0x10000) by (nonlinear_arith);
                }
                x = next as u16;
                j = j + 1;
            }
            let fill = match bg {
                Some(b) => if x < width {
                    Some((x, width - x, make_style(None, Some(b), false)))
                } else {
                    None
                },
                None => None,
            };
            rows.push(CodeRow { y: i as u16, gutter, marker, pieces, fill });
            i = i + 1;
        }
        rows
    }

    /// What the block draws in a `width` by `height` area (see `plan_rows`):
    /// its lines highlighted as `highlighted_lines` gives them, one row each
    /// from the top. `None` when the default sets lack the syntax or theme, or
    /// when numbers are shown and highlighting gives lines for a block with
    /// none.
    pub fn render_plan(&self, width: u16, height: u16) -> (r: Option<Vec<CodeRow>>)
        ensures
            ({
                let v = self.view();
                let h = highlighted_text(block_syntax(v), block_theme(v), v.content);
                &&& r is Some <==> (default_syntax_named(block_syntax(v)) && default_theme_named(block_theme(v))
                    && !(v.show_line_numbers && h.len() > 0 && lines(v.content).len() == 0))
                &&& r matches Some(rows) ==> {
                    &&& (width == 0 || height == 0) ==> rows@.len() == 0
                    &&& (width > 0 && height > 0) ==> rows@.len() == if h.len() < height {
                        h.len() as int
                    } else {
                        height as int
                    }
                    &&& forall|i: int| 0 <= i < rows@.len() ==> self.code_row_is(
                        #[trigger] rows@[i],
                        i,
                        line_pieces(h[i], line_look(v, line_number_at(v.start_line, i)).0),
                        width,
                    )
                }
            }),
    {
        let drawn = match self.highlighted_lines() {
            None => return None,
            Some(d) => d,
        };
        if self.show_line_numbers && drawn.len() > 0 && self.line_number_width() == 0 {
            return None;
        }
        let rows = self.plan_rows(&drawn, width, height);
        proof {
            let v = self.view();
            let h = highlighted_text(block_syntax(v), block_theme(v), v.content);
            assert forall|i: int| 0 <= i < drawn@.len() implies pieces_view(#[trigger] drawn@[i]@) == line_pieces(
                h[i],
                line_look(v, line_number_at(v.start_line, i)).0,
            ) by {
                assert(pieces_view(drawn@[i]@) =~= line_pieces(h[i], line_look(v, line_number_at(v.start_line, i)).0));
            }
            assert forall|i: int| 0 <= i < rows@.len() implies self.code_row_is(
                #[trigger] rows@[i],
                i,
                line_pieces(h[i], line_look(v, line_number_at(v.start_line, i)).0),
                width,
            ) by {
                assert(pieces_view(drawn@[i]@) == line_pieces(h[i], line_look(v, line_number_at(v.start_line, i)).0));
            }
        }
        Some(rows)
    }
}

} // verus!
