//! Layout of a group of labelled choices (checkbox and radio groups): each
//! choice is a three-cell mark, a space and its label; in a row, two cells
//! separate neighbouring choices.

use vstd::prelude::*;
use crate::event::{Event, KeyCode, MouseButton, MouseEventKind};
use crate::widget_id::{child_path, fx_path_key_hash, WidgetId};
use crate::style::{make_style, styled, Style};
use crate::theme::Theme;
use crate::widget_state::{effective_style, interactive_base, StyleManager, WidgetState};
use crate::width::{str_width, text_width};

verus! {

/// The label widths of the choices.
pub open spec fn label_widths(opts: Seq<String>) -> Seq<nat> {
    opts.map_values(|s: String| text_width(s@))
}

/// The label width as the 16-bit cell count the layout uses.
pub open spec fn cells16(w: nat) -> int {
    (w % 0x10000) as int
}

/// The cells a choice with a label `w` columns wide takes: mark, space, label.
pub open spec fn choice_span(w: nat) -> int {
    4 + cells16(w)
}

/// The column where choice `i` starts in a row.
pub open spec fn span_start(ws: Seq<nat>, i: int) -> int
    decreases i,
{
    if i <= 0 {
        0
    } else {
        span_start(ws, i - 1) + choice_span(ws[i - 1]) + 2
    }
}

/// The first choice from `i` on whose cells in a row hold column `col`.
pub open spec fn hit_from(ws: Seq<nat>, col: int, i: int) -> Option<int>
    decreases ws.len() - i,
{
    if i < 0 || i >= ws.len() {
        None
    } else if span_start(ws, i) <= col < span_start(ws, i) + choice_span(ws[i]) {
        Some(i)
    } else {
        hit_from(ws, col, i + 1)
    }
}

/// The choice a click at column `col` of a row lands on.
pub open spec fn row_hit(ws: Seq<nat>, col: int) -> Option<int> {
    hit_from(ws, col, 0)
}

/// The width of a row of choices (no gap after the last one).
pub open spec fn row_width(ws: Seq<nat>) -> int {
    if ws.len() == 0 {
        0
    } else {
        span_start(ws, ws.len() as int) - 2
    }
}

/// The widest label among the first `k`, in 16-bit cells (0 when none).
pub open spec fn widest(ws: Seq<nat>, k: int) -> int
    decreases k,
{
    if k <= 0 {
        0
    } else {
        let m = widest(ws, k - 1);
        if cells16(ws[k - 1]) > m {
            cells16(ws[k - 1])
        } else {
            m
        }
    }
}

/// The width of a column of choices: mark, space and the widest label.
pub open spec fn column_width(ws: Seq<nat>) -> int {
    4 + widest(ws, ws.len() as int)
}

/// `x`, or the largest `u16` when it is larger.
pub open spec fn cap16(x: int) -> u16 {
    if x > u16::MAX {
        u16::MAX
    } else {
        x as u16
    }
}

/// What an event does to a choice group.
pub enum GroupStep {
    /// Nothing: the event is left to others.
    Ignore,
    /// Focus moves to the previous option.
    Previous,
    /// Focus moves to the next option.
    Next,
    /// The option at this index is acted on.
    Act(int),
}

/// Whether a key activates the focused option: Enter or Space.
pub open spec fn is_activation(code: KeyCode) -> bool {
    code == KeyCode::Enter || code == KeyCode::Char(' ')
}

/// What an event does to a group laid out vertically (`vertical`) or in a row,
/// whose labels are `ws` columns wide and whose focused option is `focused`.
pub open spec fn group_step(
    disabled: bool,
    vertical: bool,
    ws: Seq<nat>,
    focused: Option<int>,
    ev: Event,
) -> GroupStep {
    if disabled {
        GroupStep::Ignore
    } else {
        match ev {
            Event::Key(k) => if (k.code == KeyCode::Up && vertical) || (k.code == KeyCode::Left
                && !vertical) {
                GroupStep::Previous
            } else if (k.code == KeyCode::Down && vertical) || (k.code == KeyCode::Right
                && !vertical) {
                GroupStep::Next
            } else if is_activation(k.code) && focused.is_some() {
                GroupStep::Act(focused.unwrap())
            } else {
                GroupStep::Ignore
            },
            Event::Mouse(m) => if m.kind != MouseEventKind::Down(MouseButton::Left) {
                GroupStep::Ignore
            } else if vertical {
                if m.row < ws.len() {
                    GroupStep::Act(m.row as int)
                } else {
                    GroupStep::Ignore
                }
            } else {
                match row_hit(ws, m.column as int) {
                    Some(i) => GroupStep::Act(i),
                    None => GroupStep::Ignore,
                }
            },
            _ => GroupStep::Ignore,
        }
    }
}

/// The first option `i` (from `k` on, below `n`) whose identifier under `path`
/// equals `id`.
pub open spec fn first_id_match(path: Seq<usize>, n: int, id: u64, k: int) -> Option<int>
    decreases n - k,
{
    if k < 0 || k >= n {
        None
    } else if fx_path_key_hash(path.push(k as usize), None) == id {
        Some(k)
    } else {
        first_id_match(path, n, id, k + 1)
    }
}

/// The identifiers of the options `0..n` under `path`, appended in order.
pub open spec fn option_ids_added(before: Seq<WidgetId>, after: Seq<WidgetId>, path: Seq<usize>, n: int) -> bool {
    &&& after.len() == before.len() + n
    &&& after.take(before.len() as int) == before
    &&& forall|i: int| 0 <= i < n ==> (#[trigger] after[before.len() + i]).value() == fx_path_key_hash(path.push(i as usize), None)
}

/// The first option below `n` whose identifier under `path` is `focus`.
pub fn find_option(path: &[usize], n: usize, focus: WidgetId) -> (r: Option<usize>)
    ensures
        r matches Some(i) ==> first_id_match(path@, n as int, focus.value(), 0) == Some(i as int) && i < n,
        r.is_none() ==> first_id_match(path@, n as int, focus.value(), 0).is_none(),
{
    let mut i: usize = 0;
    while i < n
        invariant
            i <= n,
            first_id_match(path@, n as int, focus.value(), 0) == first_id_match(
                path@,
                n as int,
                focus.value(),
                i as int,
            ),
        decreases n - i,
    {
        let option_path = child_path(path, i);
        let option_id = WidgetId::from_path(option_path.as_slice());
        if focus.id() == option_id.id() {
            return Some(i);
        }
        i = i + 1;
    }
    None
}

/// Appends the identifiers of options `0..n` under `current_path` to `chain`.
pub fn add_option_ids(current_path: &mut Vec<usize>, chain: &mut Vec<WidgetId>, n: usize)
    ensures
        final(current_path)@ == old(current_path)@,
        option_ids_added(old(chain)@, final(chain)@, old(current_path)@, n as int),
{
        let ghost path0 = current_path@;
        let ghost chain0 = chain@;
        let mut i: usize = 0;
        while i < n
            invariant
                i <= n,
                current_path@ == path0,
                chain@.len() == chain0.len() + i,
                chain@.take(chain0.len() as int) == chain0,
                forall|j: int| 0 <= j < i ==> (#[trigger] chain@[chain0.len() + j]).value() == fx_path_key_hash(path0.push(j as usize), None),
            decreases n - i,
        {
            current_path.push(i);
            let id = WidgetId::from_path(current_path.as_slice());
            chain.push(id);
            current_path.pop();
            proof {
                assert(chain@.take(chain0.len() as int) =~= chain0);
            }
            i = i + 1;
        }
}

/// Rows start further right, choice by choice.
pub proof fn lemma_span_start_grows(ws: Seq<nat>, i: int, j: int)
    requires
        0 <= i <= j,
    ensures
        span_start(ws, i) <= span_start(ws, j),
        i < j ==> span_start(ws, i) + choice_span(ws[i]) + 2 <= span_start(ws, j),
    decreases j - i,
{
    if i < j {
        lemma_span_start_grows(ws, i, j - 1);
        lemma_span_start_grows(ws, i + 1, j);
    }
}

/// No choice from `i` on holds a column left of where choice `i` starts.
pub proof fn lemma_no_hit_left(ws: Seq<nat>, col: int, i: int)
    requires
        0 <= i,
        col < span_start(ws, i),
    ensures
        hit_from(ws, col, i).is_none(),
    decreases ws.len() - i,
{
    if i < ws.len() {
        lemma_span_start_grows(ws, i, i + 1);
        lemma_no_hit_left(ws, col, i + 1);
    }
}

/// The choice a click at column `col` lands on, if any.
pub fn hit_test_row(opts: &Vec<String>, col: u16) -> (r: Option<usize>)
    ensures
        r matches Some(i) ==> row_hit(label_widths(opts@), col as int) == Some(i as int),
        r.is_none() ==> row_hit(label_widths(opts@), col as int).is_none(),
{
    let ghost ws = label_widths(opts@);
    let n = opts.len();
    let mut x: u64 = 0;
    let mut i: usize = 0;
    while i < n
        invariant
            n == opts@.len(),
            ws == label_widths(opts@),
            i <= n,
            x == span_start(ws, i as int),
            x <= u16::MAX,
            hit_from(ws, col as int, 0) == hit_from(ws, col as int, i as int),
        decreases n - i,
    {
        let w = str_width(opts[i].as_str());
        proof {
            assert(ws[i as int] == text_width(opts@[i as int]@));
        }
        let span: u64 = 4 + (w % 0x10000) as u64;
        if (col as u64) < x {
            proof {
                lemma_no_hit_left(ws, col as int, i as int);
            }
            return None;
        }
        if (col as u64) < x + span {
            return Some(i);
        }
        if x + span + 2 > u16::MAX as u64 {
            proof {
                assert(span_start(ws, i as int + 1) == x + span + 2);
                lemma_no_hit_left(ws, col as int, i as int + 1);
            }
            return None;
        }
        x = x + span + 2;
        i = i + 1;
    }
    None
}

/// The width of a row of the choices, capped at the largest `u16`.
pub fn row_width_of(opts: &Vec<String>) -> (r: u16)
    ensures
        r == cap16(row_width(label_widths(opts@))),
{
    let ghost ws = label_widths(opts@);
    let n = opts.len();
    if n == 0 {
        return 0;
    }
    let mut acc: u64 = 0;
    let mut i: usize = 0;
    while i < n
        invariant
            n == opts@.len(),
            n > 0,
            ws == label_widths(opts@),
            i <= n,
            acc == if span_start(ws, i as int) > u16::MAX + 2 {
                u16::MAX + 2
            } else {
                span_start(ws, i as int)
            },
        decreases n - i,
    {
        let w = str_width(opts[i].as_str());
        proof {
            assert(ws[i as int] == text_width(opts@[i as int]@));
            lemma_span_start_grows(ws, 0, i as int);
        }
        let span: u64 = 4 + (w % 0x10000) as u64;
        acc = acc + span + 2;
        if acc > u16::MAX as u64 + 2 {
            acc = u16::MAX as u64 + 2;
        }
        i = i + 1;
    }
    proof {
        lemma_span_start_grows(ws, 0, n as int);
    }
    let total = acc - 2;
    if total > u16::MAX as u64 {
        u16::MAX
    } else {
        total as u16
    }
}

/// The width of a column of the choices, capped at the largest `u16`.
pub fn column_width_of(opts: &Vec<String>) -> (r: u16)
    ensures
        r == cap16(column_width(label_widths(opts@))),
{
    let ghost ws = label_widths(opts@);
    let n = opts.len();
    let mut widest_cells: u16 = 0;
    let mut i: usize = 0;
    while i < n
        invariant
            n == opts@.len(),
            ws == label_widths(opts@),
            i <= n,
            widest_cells == widest(ws, i as int),
        decreases n - i,
    {
        let w = str_width(opts[i].as_str());
        proof {
            assert(ws[i as int] == text_width(opts@[i as int]@));
        }
        let cells = (w % 0x10000) as u16;
        if cells > widest_cells {
            widest_cells = cells;
        }
        i = i + 1;
    }
    widest_cells.saturating_add(4)
}

/// What one option of a group draws: its mark (`[✓]`/`[ ]` or `(●)`/`( )`)
/// at `x`, `y` in `mark_style`, and its label (when not empty) four columns
/// further in `label_style`.
#[derive(Debug, Clone, Copy)]
pub struct OptionPlan {
    pub x: u16,
    pub y: u16,
    pub marked: bool,
    pub mark_style: Style,
    pub label_x: u16,
    pub label_style: Style,
    pub show_label: bool,
}

/// The style of an option: the group's interactive style, focused only when the
/// group has focus and the option is the focused one.
pub open spec fn option_style_of(st: WidgetState, focused_here: bool, theme: Theme) -> Style {
    let s = WidgetState { focused: st.focused && focused_here, ..st };
    effective_style(s, interactive_base(s, theme.styles))
}

/// The plan of option `i` at `x`, `y`: a marked mark of an enabled group in
/// the success color, bold; the label of the focused option of a focused,
/// enabled group in the info color, bold; the option's style otherwise.
pub open spec fn option_plan_at(
    labels: Seq<String>,
    marks: Seq<bool>,
    focus: Option<usize>,
    st: WidgetState,
    theme: Theme,
    i: int,
    x: int,
    y: int,
) -> OptionPlan {
    let here = focus == Some(i as usize);
    let base = option_style_of(st, here, theme);
    OptionPlan {
        x: x as u16,
        y: y as u16,
        marked: marks[i],
        mark_style: if marks[i] && !st.disabled {
            styled(Some(theme.colors.success), None, true)
        } else {
            base
        },
        label_x: (x + 4) as u16,
        label_style: if st.focused && here && !st.disabled {
            styled(Some(theme.colors.info), None, true)
        } else {
            base
        },
        show_label: labels[i]@.len() > 0,
    }
}

/// The options drawn from option `i` on: side by side from column `x`, each
/// taking its mark, a space and its label and two columns of gap, while it
/// fits in `width`; or one per line while the lines last.
pub open spec fn option_plans_from(
    labels: Seq<String>,
    marks: Seq<bool>,
    focus: Option<usize>,
    st: WidgetState,
    theme: Theme,
    horizontal: bool,
    width: u16,
    height: u16,
    i: int,
    x: int,
) -> Seq<OptionPlan>
    decreases labels.len() - i,
{
    if i >= labels.len() || i < 0 {
        Seq::empty()
    } else if horizontal {
        let total = 4 + cells16(text_width(labels[i]@));
        if x + total > width {
            Seq::empty()
        } else {
            seq![option_plan_at(labels, marks, focus, st, theme, i, x, 0)] + option_plans_from(
                labels,
                marks,
                focus,
                st,
                theme,
                horizontal,
                width,
                height,
                i + 1,
                x + total + 2,
            )
        }
    } else if i >= height {
        Seq::empty()
    } else {
        seq![option_plan_at(labels, marks, focus, st, theme, i, 0, i)] + option_plans_from(
            labels,
            marks,
            focus,
            st,
            theme,
            horizontal,
            width,
            height,
            i + 1,
            x,
        )
    }
}

/// What the options of a group draw in a `width` by `height` area (see
/// `option_plans_from`).
pub fn option_plans(
    labels: &Vec<String>,
    marks: &Vec<bool>,
    focus: Option<usize>,
    st: &WidgetState,
    theme: &Theme,
    horizontal: bool,
    width: u16,
    height: u16,
) -> (v: Vec<OptionPlan>)
    requires
        marks@.len() == labels@.len(),
    ensures
        v@ == option_plans_from(labels@, marks@, focus, *st, *theme, horizontal, width, height, 0, 0),
{
    let ghost all = option_plans_from(labels@, marks@, focus, *st, *theme, horizontal, width, height, 0, 0);
    let n = labels.len();
    let mut v: Vec<OptionPlan> = Vec::new();
    let mut i: usize = 0;
    let mut x: u32 = 0;
    while i < n
        invariant
            n == labels@.len() == marks@.len(),
            i <= n,
            x <= width as int + 2,
            all == option_plans_from(labels@, marks@, focus, *st, *theme, horizontal, width, height, 0, 0),
            all == v@ + option_plans_from(labels@, marks@, focus, *st, *theme, horizontal, width, height, i as int, x as int),
        ensures
            all == v@,
        decreases n - i,
    {
        let here = match focus {
            Some(f) => f == i,
            None => false,
        };
        let (px, py): (u32, usize) = if horizontal {
            let total: u32 = 4 + (str_width(labels[i].as_str()) % 0x10000) as u32;
            if x + total > width as u32 {
                proof {
                    assert(all =~= v@);
                }
                break;
            }
            (x, 0)
        } else {
            if i >= height as usize {
                proof {
                    assert(all =~= v@);
                }
                break;
            }
            (0, i)
        };
        let option_state = WidgetState { focused: st.focused && here, ..*st };
        let base = StyleManager::interactive_style(&option_state, theme);
        let marked = marks[i];
        let mark_style = if marked && !st.disabled {
            make_style(Some(theme.colors.success), None, true)
        } else {
            base
        };
        let label_style = if st.focused && here && !st.disabled {
            make_style(Some(theme.colors.info), None, true)
        } else {
            base
        };
        let plan = OptionPlan {
            x: px as u16,
            y: py as u16,
            marked,
            mark_style,
            label_x: (px + 4) as u16,
            label_style,
            show_label: crate::text::chars_of(labels[i].as_str()).len() > 0,
        };
        proof {
            assert(plan == option_plan_at(labels@, marks@, focus, *st, *theme, i as int, px as int, py as int));
        }
        v.push(plan);
        if horizontal {
            let total: u32 = 4 + (str_width(labels[i].as_str()) % 0x10000) as u32;
            x = x + total + 2;
        }
        i = i + 1;
        proof {
            assert(all == v@ + option_plans_from(labels@, marks@, focus, *st, *theme, horizontal, width, height, i as int, x as int));
        }
    }
    v
}

} // verus!
