//! What a progress bar shows beside its bar, and the room it asks for. The
//! progress itself is a fraction, held by the caller; these take the
//! percentage it rounds to.

use vstd::prelude::*;
use crate::layout::{Constraints, ConstraintsView, Flex};
use crate::style::{make_style, merged, styled, Style};
use crate::theme::Theme;
use crate::text::{decimal_text, push_char, push_decimal, push_str};
use crate::width::{str_width, text_width};

verus! {

/// Where a progress bar's label goes.
#[derive(Debug, Clone, Copy, PartialEq, Eq, Structural)]
pub enum LabelPosition {
    /// No label
    Hidden,
    /// Centred inside the bar
    Inside,
    /// Right of the bar
    Right,
}

impl Default for LabelPosition {
    fn default() -> (p: Self)
        ensures
            p == LabelPosition::Hidden,
    {
        LabelPosition::Hidden
    }
}

/// The view of an optional text.
pub open spec fn text_view(t: Option<String>) -> Option<Seq<char>> {
    match t {
        Some(s) => Some(s@),
        None => None,
    }
}

/// The text a progress bar shows: none while its label is hidden; with a
/// percentage to show, the label, a space, the percentage and `%` (the
/// percentage and `%` alone without a label); otherwise the label.
pub open spec fn progress_text_of(position: LabelPosition, percentage: Option<u8>, label: Option<Seq<char>>) -> Option<Seq<char>> {
    if position == LabelPosition::Hidden {
        None
    } else {
        match percentage {
            Some(p) => Some(
                match label {
                    Some(l) => l + seq![' '] + decimal_text(p as nat) + seq!['%'],
                    None => decimal_text(p as nat) + seq!['%'],
                },
            ),
            None => label,
        }
    }
}

/// The text a progress bar shows (see `progress_text_of`); `percentage` is
/// the rounded percentage when the bar is determinate and shows it.
pub fn progress_text(position: LabelPosition, percentage: Option<u8>, label: &Option<String>) -> (r: Option<String>)
    ensures
        text_view(r) == progress_text_of(position, percentage, text_view(*label)),
{
    if position == LabelPosition::Hidden {
        return None;
    }
    match percentage {
        Some(p) => {
            let mut s = String::new();
            match label {
                Some(l) => {
                    push_str(&mut s, l.as_str());
                    push_char(&mut s, ' ');
                },
                None => {},
            }
            push_decimal(&mut s, p as u64);
            push_char(&mut s, '%');
            proof {
                match label {
                    Some(l) => assert(s@ =~= l@ + seq![' '] + decimal_text(p as nat) + seq!['%']),
                    None => assert(s@ =~= decimal_text(p as nat) + seq!['%']),
                }
            }
            Some(s)
        },
        None => match label {
            Some(l) => Some(l.clone()),
            None => None,
        },
    }
}

/// `x` capped at the largest 16-bit value.
pub open spec fn cap16(x: int) -> int {
    if x > 0xFFFF {
        0xFFFF
    } else {
        x
    }
}

/// The room a progress bar asks for: its width (ten cells at least when it
/// stretches) plus, for a label on the right, the label's width and a space;
/// one line; a stretching bar takes a flex factor of one. Sums are capped at
/// the largest 16-bit value.
pub open spec fn progress_size(width: Option<u16>, position: LabelPosition, text: Option<Seq<char>>) -> ConstraintsView {
    let room = if position == LabelPosition::Right && text.is_some() {
        cap16(((text_width(text.unwrap()) % 0x10000) + 1) as int)
    } else {
        0
    };
    match width {
        Some(w) => {
            let total = cap16(w + room) as u16;
            ConstraintsView { min_width: total, max_width: Some(total), min_height: 1, max_height: Some(1), flex: None }
        },
        None => ConstraintsView {
            min_width: cap16(10 + room) as u16,
            max_width: None,
            min_height: 1,
            max_height: Some(1),
            flex: Some(seq!['1', '.', '0']),
        },
    }
}

/// The constraints of a progress bar (see `progress_size`); `text` is what
/// it shows.
pub fn progress_constraints(width: Option<u16>, position: LabelPosition, text: &Option<String>) -> (c: Constraints)
    ensures
        c@ == progress_size(width, position, text_view(*text)),
{
    let room: u16 = match text {
        Some(t) => if position == LabelPosition::Right {
            ((str_width(t.as_str()) % 0x10000) as u16).saturating_add(1)
        } else {
            0
        },
        None => 0,
    };
    match width {
        Some(w) => {
            let total = w.saturating_add(room);
            Constraints { min_width: total, max_width: Some(total), min_height: 1, max_height: Some(1), flex: None }
        },
        None => Constraints {
            min_width: room.saturating_add(10),
            max_width: None,
            min_height: 1,
            max_height: Some(1),
            flex: Some(Flex::one()),
        },
    }
}

/// The width of a bar in an area `width` wide showing `text`: all of it, less
/// the text's width and a space (capped at 16 bits) for a label on the right.
pub open spec fn bar_width_of(width: u16, position: LabelPosition, text: Option<Seq<char>>) -> int {
    if position == LabelPosition::Right && text.is_some() {
        let need = cap16(((text_width(text.unwrap()) % 0x10000) + 1) as int);
        if width > need {
            width - need
        } else {
            0
        }
    } else {
        width as int
    }
}

/// The width of a bar in an area `width` wide (see `bar_width_of`).
pub fn bar_width(width: u16, position: LabelPosition, text: &Option<String>) -> (w: u16)
    ensures
        w == bar_width_of(width, position, text_view(*text)),
{
    match text {
        Some(t) => if position == LabelPosition::Right {
            let need = ((str_width(t.as_str()) % 0x10000) as u16).saturating_add(1);
            width.saturating_sub(need)
        } else {
            width
        },
        None => width,
    }
}

/// `n` copies of `c`.
pub open spec fn repeated(c: char, n: nat) -> Seq<char> {
    Seq::new(n, |i: int| c)
}

/// The pattern of a bar of unknown progress, `n` cells long: dark, medium and
/// light shade in turn.
pub open spec fn shade_pattern(n: nat) -> Seq<char> {
    Seq::new(
        n,
        |i: int|
            if i % 3 == 0 {
                '▓'
            } else if i % 3 == 1 {
                '▒'
            } else {
                '░'
            },
    )
}

/// What a progress bar draws on its line.
pub struct ProgressPlan {
    /// The bar's width.
    pub bar_width: u16,
    /// The run from column 0: the filled cells, or the pattern of a bar of
    /// unknown progress.
    pub bar: Option<(String, Style)>,
    /// The empty cells: their column, text and style.
    pub empty: Option<(u16, String, Style)>,
    /// The label: its column, text and style.
    pub label: Option<(u16, String, Style)>,
}

/// Whether `plan` is what a bar draws in a `width` wide area, with label
/// `text` at `position`, `filled` cells filled (`None` when its progress is
/// unknown), the two cell characters, the bar's own `style` and `theme`: a bar
/// of unknown progress draws the shade pattern across the bar in the primary
/// color under its style, and a label on the right; otherwise the filled
/// cells in the primary color (on it) under its style, the rest of the bar in
/// empty cells in the border color, and the label centred on the bar in bold
/// background color when it fits, or right of the bar after a space in the
/// theme's text style.
pub open spec fn progress_plan_is(
    plan: ProgressPlan,
    width: u16,
    position: LabelPosition,
    text: Option<Seq<char>>,
    filled: Option<u16>,
    filled_char: char,
    empty_char: char,
    style: Style,
    theme: Theme,
) -> bool {
    let bw = bar_width_of(width, position, text);
    let c = theme.colors;
    &&& plan.bar_width == bw
    &&& match filled {
        None => {
            &&& plan.bar matches Some(b) && b.0@ == shade_pattern(bw as nat) && b.1 == merged(
                style,
                styled(Some(c.primary), None, false),
            )
            &&& plan.empty is None
        },
        Some(f) => {
            &&& (plan.bar is Some <==> f > 0)
            &&& plan.bar matches Some(b) ==> b.0@ == repeated(filled_char, f as nat) && b.1 == merged(
                style,
                styled(Some(c.primary), Some(c.primary), false),
            )
            &&& (plan.empty is Some <==> f < bw)
            &&& plan.empty matches Some(e) ==> e.0 == f && e.1@ == repeated(empty_char, (bw - f) as nat) && e.2
                == styled(Some(c.border), None, false)
        },
    }
    &&& match text {
        None => plan.label is None,
        Some(t) => {
            let tw = text_width(t) % 0x10000;
            if position == LabelPosition::Right {
                plan.label matches Some(l) && l.0 == bw + 1 && l.1@ == t && l.2 == theme.styles.text
            } else if position == LabelPosition::Inside && filled is Some && tw <= bw {
                plan.label matches Some(l) && l.0 == (bw - tw) / 2 && l.1@ == t && l.2 == styled(
                    Some(c.background),
                    None,
                    true,
                )
            } else {
                plan.label is None
            }
        },
    }
}

/// `n` copies of `c` as a string.
fn repeat_char(c: char, n: u16) -> (s: String)
    ensures
        s@ == repeated(c, n as nat),
{
    let mut s = String::new();
    let mut i: u16 = 0;
    while i < n
        invariant
            i <= n,
            s@ == repeated(c, i as nat),
        decreases n - i,
    {
        push_char(&mut s, c);
        i = i + 1;
        proof {
            assert(s@ =~= repeated(c, i as nat));
        }
    }
    s
}

/// What a bar draws in a `width` by `height` area (see `progress_plan_is`);
/// `filled` is the bar's width times its progress, rounded, or `None` when the
/// progress is unknown. Nothing in an empty area or when the label leaves no
/// room for the bar.
pub fn progress_plan(
    width: u16,
    height: u16,
    position: LabelPosition,
    text: &Option<String>,
    filled: Option<u16>,
    filled_char: char,
    empty_char: char,
    style: Style,
    theme: &Theme,
) -> (p: Option<ProgressPlan>)
    ensures
        (width == 0 || height == 0 || bar_width_of(width, position, text_view(*text)) == 0) <==> p is None,
        p matches Some(plan) ==> progress_plan_is(
            plan,
            width,
            position,
            text_view(*text),
            filled,
            filled_char,
            empty_char,
            style,
            *theme,
        ),
{
    if width == 0 || height == 0 {
        return None;
    }
    let bw = bar_width(width, position, text);
    if bw == 0 {
        return None;
    }
    let c = &theme.colors;
    let mut plan = ProgressPlan { bar_width: bw, bar: None, empty: None, label: None };
    match filled {
        None => {
            let mut s = String::new();
            let mut i: u16 = 0;
            while i < bw
                invariant
                    i <= bw,
                    s@ == shade_pattern(i as nat),
                decreases bw - i,
            {
                let ch = if i % 3 == 0 {
                    '▓'
                } else if i % 3 == 1 {
                    '▒'
                } else {
                    '░'
                };
                push_char(&mut s, ch);
                i = i + 1;
                proof {
                    assert(s@ =~= shade_pattern(i as nat));
                }
            }
            plan.bar = Some((s, style.merge(make_style(Some(c.primary), None, false))));
        },
        Some(f) => {
            if f > 0 {
                plan.bar = Some((repeat_char(filled_char, f), style.merge(make_style(Some(c.primary), Some(c.primary), false))));
            }
            if f < bw {
                plan.empty = Some((f, repeat_char(empty_char, bw - f), make_style(Some(c.border), None, false)));
            }
        },
    }
    match text {
        None => {},
        Some(t) => {
            let tw = (str_width(t.as_str()) % 0x10000) as u16;
            if position == LabelPosition::Right {
                plan.label = Some((bw + 1, t.clone(), theme.styles.text));
            } else if position == LabelPosition::Inside && filled.is_some() && tw <= bw {
                plan.label = Some(((bw - tw) / 2, t.clone(), make_style(Some(c.background), None, true)));
            }
        },
    }
    Some(plan)
}

} // verus!
