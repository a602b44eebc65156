//! A table of rows under titled columns, with row focus and selection.

use vstd::prelude::*;
use crate::event::{Event, EventResult, KeyCode, MouseButton, MouseEventKind, Widget};
use crate::handler::{handler_ready, Handler};
use crate::layout::{Constraints, ConstraintsView};
use crate::list::{first_pos, find_pos, toggled, SelectionMode};
use crate::navigation::visible_offset;
use crate::style::{make_style, style_with_flag, styled, BorderStyle, Style, BOLD_BIT};
use crate::text::owned;
use crate::theme::Theme;
use crate::width::{str_width, text_width};

verus! {

/// The look of a table.
#[derive(Debug, Clone, Copy, PartialEq, Eq, Structural)]
pub enum TableVariant {
    Simple,
    Bordered,
    Compact,
    Striped,
}

impl Default for TableVariant {
    fn default() -> (v: Self)
        ensures
            v == TableVariant::Simple,
    {
        TableVariant::Simple
    }
}

/// How wide a column is.
#[derive(Debug, Clone, Copy, PartialEq, Eq, Structural)]
pub enum ColumnWidth {
    /// Exactly this many columns (as far as there is room)
    Fixed(u16),
    /// A share of the room left, in proportion to this factor
    Flex(u16),
    /// As wide as the widest of the title and the cells
    Auto,
}

/// The text of a cell: what a column shows for a row.
pub trait CellText<T> {
    /// The callback accepts every row.
    spec fn ready(&self) -> bool;

    /// `s` is a text the callback may give for `row`.
    spec fn gives(&self, row: T, s: Seq<char>) -> bool;

    /// The text for `row`.
    fn cell(&self, row: &T) -> (s: String)
        requires
            self.ready(),
        ensures
            self.gives(*row, s@),
    ;
}

impl<T, F: Fn(&T) -> String> CellText<T> for F {
    open spec fn ready(&self) -> bool {
        forall|r: &T| call_requires(*self, (r,))
    }

    open spec fn gives(&self, row: T, s: Seq<char>) -> bool {
        exists|t: String| t@ == s && call_ensures(*self, (&row,), t)
    }

    fn cell(&self, row: &T) -> (s: String) {
        (self)(row)
    }
}

/// A column: a title, a width and how to read a row's cell.
#[verifier::reject_recursive_types(T)]
pub struct Column<T: Clone> {
    pub title: String,
    pub width: ColumnWidth,
    pub accessor: Box<dyn CellText<T>>,
}

impl<T: Clone> Column<T> {
    /// A column of automatic width, with the given title and cell reader.
    pub fn new<F: Fn(&T) -> String + 'static>(title: &str, accessor: F) -> (c: Self)
        requires
            forall|r: &T| call_requires(accessor, (r,)),
        ensures
            c.title@ == title@,
            c.width == ColumnWidth::Auto,
            c.accessor.ready(),
            forall|row: T, s: Seq<char>| c.accessor.gives(row, s) == (exists|t: String| t@ == s && call_ensures(accessor, (&row,), t)),
    {
        let a: Box<dyn CellText<T>> = Box::new(accessor);
        Column { title: owned(title), width: ColumnWidth::Auto, accessor: a }
    }

    pub fn width(self, width: ColumnWidth) -> (c: Self)
        ensures
            c.title == self.title,
            c.width == width,
            c.accessor == self.accessor,
    {
        Column { width, ..self }
    }
}

/// What a selection change reports: the selected rows (clones, in selection
/// order, those still in the table), the focused index and the scroll offset.
#[derive(Debug, Clone)]
pub struct TableSelectionEvent<T: Clone> {
    pub selected_rows: Vec<T>,
    pub focused_index: Option<usize>,
    pub scroll_offset: usize,
}

/// What a column asks for: a fixed width, the width of its widest text, or a
/// flex share.
#[derive(Debug, Clone, Copy, PartialEq, Eq, Structural)]
pub enum WidthDemand {
    Fixed(u16),
    Auto(u16),
    Flex(u16),
}

/// After the first pass over the first `k` columns: the widths given, the room
/// left, the flex total (saturating) and the flex columns in order.
pub struct FirstPass {
    pub widths: Seq<u16>,
    pub remaining: u16,
    pub flex_total: u16,
    pub flex_indices: Seq<int>,
}

/// `a - b`, or zero.
pub open spec fn sat_sub(a: u16, b: u16) -> u16 {
    if a > b {
        (a - b) as u16
    } else {
        0
    }
}

/// `a + b`, or the largest `u16`.
pub open spec fn sat_add(a: u16, b: u16) -> u16 {
    if a + b > u16::MAX {
        u16::MAX
    } else {
        (a + b) as u16
    }
}

/// The first pass over the first `k` of `n` columns: fixed and automatic
/// columns take what they ask for as far as there is room, flex columns are
/// noted, and one column of room is kept for each separator.
pub open spec fn first_pass(d: Seq<WidthDemand>, available: u16, k: int) -> FirstPass
    decreases k,
{
    if k <= 0 {
        FirstPass {
            widths: Seq::new(d.len(), |i: int| 0u16),
            remaining: available,
            flex_total: 0,
            flex_indices: Seq::empty(),
        }
    } else {
        let p = first_pass(d, available, k - 1);
        let i = k - 1;
        let q = match d[i] {
            WidthDemand::Fixed(w) => {
                let a = if w < p.remaining {
                    w
                } else {
                    p.remaining
                };
                FirstPass { widths: p.widths.update(i, a), remaining: sat_sub(p.remaining, a), ..p }
            },
            WidthDemand::Auto(w) => {
                let a = if w < p.remaining {
                    w
                } else {
                    p.remaining
                };
                FirstPass { widths: p.widths.update(i, a), remaining: sat_sub(p.remaining, a), ..p }
            },
            WidthDemand::Flex(f) => FirstPass {
                flex_total: sat_add(p.flex_total, f),
                flex_indices: p.flex_indices.push(i),
                ..p
            },
        };
        if i < d.len() - 1 {
            FirstPass { remaining: sat_sub(q.remaining, 1), ..q }
        } else {
            q
        }
    }
}

/// The flex factor of a demand (zero for others).
pub open spec fn flex_of(d: WidthDemand) -> u16 {
    match d {
        WidthDemand::Flex(f) => f,
        _ => 0,
    }
}

/// The widths after sharing `remaining` among the first `k` flex columns:
/// each takes its proportion of the room, the last one the rest; with the
/// amount given so far.
pub open spec fn second_pass(
    d: Seq<WidthDemand>,
    p: FirstPass,
    k: int,
) -> (Seq<u16>, u16)
    decreases k,
{
    if k <= 0 {
        (p.widths, 0u16)
    } else {
        let (w, given) = second_pass(d, p, k - 1);
        let ci = p.flex_indices[k - 1];
        let share = if k - 1 == p.flex_indices.len() - 1 {
            sat_sub(p.remaining, given)
        } else {
            ((p.remaining * flex_of(d[ci])) / (p.flex_total as int)) as u16
        };
        (w.update(ci, share), sat_add(given, share))
    }
}

/// The widths the columns get in `available` columns of room.
pub open spec fn column_widths(d: Seq<WidthDemand>, available: u16) -> Seq<u16> {
    if d.len() == 0 {
        Seq::empty()
    } else if available == 0 {
        Seq::new(d.len(), |i: int| 0u16)
    } else {
        let p = first_pass(d, available, d.len() as int);
        if p.flex_total > 0 && p.remaining > 0 {
            second_pass(d, p, p.flex_indices.len() as int).0
        } else {
            p.widths
        }
    }
}

/// The sum of the widths.
pub open spec fn sum16(s: Seq<u16>) -> int
    decreases s.len(),
{
    if s.len() == 0 {
        0
    } else {
        sum16(s.drop_last()) + s.last()
    }
}

/// What a fixed or automatic column asks for (zero for flex columns).
pub open spec fn demand_of(d: WidthDemand) -> int {
    match d {
        WidthDemand::Fixed(w) => w as int,
        WidthDemand::Auto(w) => w as int,
        WidthDemand::Flex(_) => 0,
    }
}

/// The total of what the first `k` fixed and automatic columns ask for.
pub open spec fn total_demand(d: Seq<WidthDemand>, k: int) -> int
    decreases k,
{
    if k <= 0 {
        0
    } else {
        total_demand(d, k - 1) + demand_of(d[k - 1])
    }
}

/// The total of the first `k` flex factors.
pub open spec fn total_flex(d: Seq<WidthDemand>, k: int) -> int
    decreases k,
{
    if k <= 0 {
        0
    } else {
        total_flex(d, k - 1) + flex_of(d[k - 1])
    }
}

/// Distributes `available` columns of room among columns with the given
/// demands (see `column_widths`).
pub fn distribute_widths(demands: &Vec<WidthDemand>, available: u16) -> (widths: Vec<u16>)
    ensures
        widths@ == column_widths(demands@, available),
{
    let n = demands.len();
    let mut widths: Vec<u16> = Vec::new();
    if n == 0 {
        return widths;
    }
    let mut i: usize = 0;
    while i < n
        invariant
            i <= n,
            widths@ == Seq::new(i as nat, |j: int| 0u16),
        decreases n - i,
    {
        widths.push(0);
        i = i + 1;
    }
    if available == 0 {
        return widths;
    }
    let ghost d = demands@;
    let mut remaining = available;
    let mut flex_total: u16 = 0;
    let mut flex_indices: Vec<usize> = Vec::new();
    let mut i: usize = 0;
    while i < n
        invariant
            n == d.len(),
            d == demands@,
            n > 0,
            i <= n,
            ({
                let p = first_pass(d, available, i as int);
                &&& widths@ == p.widths
                &&& remaining == p.remaining
                &&& flex_total == p.flex_total
                &&& flex_indices@.len() == p.flex_indices.len()
                &&& forall|j: int| 0 <= j < flex_indices@.len() ==> flex_indices@[j] as int == #[trigger] p.flex_indices[j]
            }),
            forall|j: int| 0 <= j < flex_indices@.len() ==> #[trigger] flex_indices@[j] < n,
            widths@.len() == n,
        decreases n - i,
    {
        match demands[i] {
            WidthDemand::Fixed(w) => {
                let a = if w < remaining {
                    w
                } else {
                    remaining
                };
                widths.set(i, a);
                remaining = remaining - a;
            },
            WidthDemand::Auto(w) => {
                let a = if w < remaining {
                    w
                } else {
                    remaining
                };
                widths.set(i, a);
                remaining = remaining - a;
            },
            WidthDemand::Flex(f) => {
                flex_total = flex_total.saturating_add(f);
                flex_indices.push(i);
            },
        }
        if i < n - 1 {
            remaining = remaining.saturating_sub(1);
        }
        i = i + 1;
    }
    if flex_total > 0 && remaining > 0 {
        let ghost p = first_pass(d, available, n as int);
        let m = flex_indices.len();
        let mut distributed: u16 = 0;
        let mut k: usize = 0;
        proof {
            lemma_flex_total_bounds(d, available, n as int);
        }
        while k < m
            invariant
                m == flex_indices@.len(),
                m == p.flex_indices.len(),
                p == first_pass(d, available, n as int),
                forall|j: int| 0 <= j < m ==> flex_indices@[j] as int == #[trigger] p.flex_indices[j],
                forall|j: int| 0 <= j < m ==> #[trigger] flex_indices@[j] < n,
                forall|j: int| 0 <= j < m ==> flex_of(d[#[trigger] p.flex_indices[j]]) <= p.flex_total,
                remaining == p.remaining,
                flex_total == p.flex_total,
                flex_total > 0,
                k <= m,
                n == d.len(),
                d == demands@,
                widths@.len() == n,
                (widths@, distributed) == second_pass(d, p, k as int),
            decreases m - k,
        {
            let ci = flex_indices[k];
            let f = flex_of_exec(demands[ci]);
            proof {
                assert(p.flex_indices[k as int] == ci as int);
                assert(flex_of(d[p.flex_indices[k as int]]) <= p.flex_total);
            }
            let share: u16 = if k == m - 1 {
                remaining.saturating_sub(distributed)
            } else {
                proof {
                    assert((remaining as u32) * (f as u32) <= 0xFFFF * 0xFFFF) by (nonlinear_arith)
                        requires
                            remaining <= 0xFFFF,
                            f <= 0xFFFF,
                    ;
                }
                let num = remaining as u32 * f as u32;
                proof {
                    assert(f <= flex_total);
                    assert(num / (flex_total as u32) <= remaining) by (nonlinear_arith)
                        requires
                            num == remaining * f,
                            f <= flex_total,
                            flex_total > 0,
                    ;
                }
                (num / flex_total as u32) as u16
            };
            widths.set(ci, share);
            distributed = distributed.saturating_add(share);
            k = k + 1;
        }
    }
    widths
}


/// Replacing one width changes the sum by the difference.
pub proof fn lemma_sum16_update(s: Seq<u16>, i: int, v: u16)
    requires
        0 <= i < s.len(),
    ensures
        sum16(s.update(i, v)) == sum16(s) - s[i] + v,
    decreases s.len(),
{
    if i < s.len() - 1 {
        assert(s.update(i, v).drop_last() =~= s.drop_last().update(i, v));
        lemma_sum16_update(s.drop_last(), i, v);
    } else {
        assert(s.update(i, v).drop_last() =~= s.drop_last());
    }
}

/// Widths of zero sum to zero.
pub proof fn lemma_sum16_zeros(n: nat)
    ensures
        sum16(Seq::new(n, |i: int| 0u16)) == 0,
    decreases n,
{
    if n > 0 {
        assert(Seq::new(n, |i: int| 0u16).drop_last() =~= Seq::new((n - 1) as nat, |i: int| 0u16));
        lemma_sum16_zeros((n - 1) as nat);
    }
}

/// The flex factors of the noted flex columns, summed over the first `k`.
pub open spec fn noted_flex(d: Seq<WidthDemand>, idx: Seq<int>, k: int) -> int
    decreases k,
{
    if k <= 0 {
        0
    } else {
        noted_flex(d, idx, k - 1) + flex_of(d[idx[k - 1]])
    }
}

/// The separators paid for among the first `k` of `n` columns.
pub open spec fn paid(k: int, n: int) -> int {
    if k < n - 1 {
        k
    } else {
        n - 1
    }
}

/// Running totals are monotone.
pub proof fn lemma_totals_grow(d: Seq<WidthDemand>, i: int, j: int)
    requires
        0 <= i <= j <= d.len(),
    ensures
        total_demand(d, i) <= total_demand(d, j),
        total_flex(d, i) <= total_flex(d, j),
    decreases j - i,
{
    if i < j {
        lemma_totals_grow(d, i, j - 1);
    }
}

/// When all fixed and automatic demands and the separators fit, the first pass
/// gives every demand in full, keeps the room the separators take, and notes
/// the flex columns in order with their full total.
pub proof fn lemma_first_pass_fits(d: Seq<WidthDemand>, available: u16, k: int)
    requires
        0 <= k <= d.len(),
        d.len() > 0,
        total_demand(d, d.len() as int) + (d.len() - 1) <= available,
        total_flex(d, d.len() as int) <= u16::MAX,
    ensures
        ({
            let p = first_pass(d, available, k);
            &&& p.widths.len() == d.len()
            &&& sum16(p.widths) == total_demand(d, k)
            &&& p.remaining == available - total_demand(d, k) - paid(k, d.len() as int)
            &&& p.flex_total == total_flex(d, k)
            &&& noted_flex(d, p.flex_indices, p.flex_indices.len() as int) == total_flex(d, k)
            &&& forall|j: int| 0 <= j < p.flex_indices.len() ==> 0 <= #[trigger] p.flex_indices[j] < k
            &&& forall|j: int| 0 <= j < p.flex_indices.len() ==> p.widths[#[trigger] p.flex_indices[j]] == 0
            &&& forall|j: int| 0 <= j < p.flex_indices.len() ==> d[#[trigger] p.flex_indices[j]] is Flex
            &&& forall|a: int, b: int| 0 <= a < b < p.flex_indices.len() ==> #[trigger] p.flex_indices[a] < #[trigger] p.flex_indices[b]
            &&& forall|j: int| k <= j < d.len() ==> p.widths[j] == 0
        }),
    decreases k,
{
    let n = d.len() as int;
    if k == 0 {
        lemma_sum16_zeros(d.len());
    } else {
        lemma_first_pass_fits(d, available, k - 1);
        lemma_totals_grow(d, k, n);
        lemma_totals_grow(d, k - 1, n);
        let p = first_pass(d, available, k - 1);
        let i = k - 1;
        match d[i] {
            WidthDemand::Fixed(w) => {
                lemma_sum16_update(p.widths, i, w);
            },
            WidthDemand::Auto(w) => {
                lemma_sum16_update(p.widths, i, w);
            },
            WidthDemand::Flex(f) => {
                let q = first_pass(d, available, k);
                assert(q.flex_indices == p.flex_indices.push(i));
                assert(noted_flex(d, q.flex_indices, p.flex_indices.len() as int) == noted_flex(d, p.flex_indices, p.flex_indices.len() as int)) by {
                    lemma_noted_flex_prefix(d, p.flex_indices, q.flex_indices, p.flex_indices.len() as int);
                }
            },
        }
    }
}

/// `noted_flex` over a prefix only reads the prefix.
pub proof fn lemma_noted_flex_prefix(d: Seq<WidthDemand>, a: Seq<int>, b: Seq<int>, k: int)
    requires
        0 <= k <= a.len(),
        k <= b.len(),
        forall|j: int| 0 <= j < k ==> a[j] == b[j],
    ensures
        noted_flex(d, a, k) == noted_flex(d, b, k),
    decreases k,
{
    if k > 0 {
        lemma_noted_flex_prefix(d, a, b, k - 1);
    }
}

/// A proportional share never exceeds its proportion of the room.
proof fn lemma_share_bound(r: int, f: int, t: int)
    requires
        0 <= r,
        0 <= f,
        0 < t,
    ensures
        (r * f / t) * t <= r * f,
        0 <= r * f / t,
{
    assert((r * f / t) * t <= r * f) by (nonlinear_arith)
        requires
            0 <= r * f,
            0 < t,
    ;
    assert(0 <= r * f / t) by (nonlinear_arith)
        requires
            0 <= r * f,
            0 < t,
    ;
}

/// In the second pass, the shares given so far stay within the room, and the
/// widths sum to the first pass's plus what was given.
pub proof fn lemma_second_pass_sums(d: Seq<WidthDemand>, p: FirstPass, k: int)
    requires
        0 <= k <= p.flex_indices.len(),
        p.flex_total > 0,
        p.widths.len() == d.len(),
        noted_flex(d, p.flex_indices, p.flex_indices.len() as int) == p.flex_total,
        forall|j: int| 0 <= j < p.flex_indices.len() ==> 0 <= #[trigger] p.flex_indices[j] < d.len(),
        forall|j: int| 0 <= j < p.flex_indices.len() ==> p.widths[#[trigger] p.flex_indices[j]] == 0,
        forall|a: int, b: int| 0 <= a < b < p.flex_indices.len() ==> #[trigger] p.flex_indices[a] < #[trigger] p.flex_indices[b],
    ensures
        ({
            let (w, given) = second_pass(d, p, k);
            &&& w.len() == d.len()
            &&& sum16(w) == sum16(p.widths) + given
            &&& (k < p.flex_indices.len() ==> given * p.flex_total <= p.remaining * noted_flex(d, p.flex_indices, k))
            &&& (k < p.flex_indices.len() ==> given <= p.remaining)
            &&& (k == p.flex_indices.len() ==> given == p.remaining)
            &&& forall|j: int| k <= j < p.flex_indices.len() ==> w[#[trigger] p.flex_indices[j]] == 0
        }),
    decreases k,
{
    lemma_noted_flex_mono(d, p.flex_indices, k, p.flex_indices.len() as int);
    if k > 0 {
        lemma_second_pass_sums(d, p, k - 1);
        let (w, given) = second_pass(d, p, k - 1);
        let ci = p.flex_indices[k - 1];
        let m = p.flex_indices.len();
        let f = flex_of(d[ci]) as int;
        let r = p.remaining as int;
        let t = p.flex_total as int;
        lemma_noted_flex_mono(d, p.flex_indices, k - 1, m as int);
        lemma_noted_flex_mono(d, p.flex_indices, 0, k - 1);
        assert(f <= t);
        if k - 1 == m - 1 {
            assert(given <= r);
        } else {
            let share = r * f / t;
            lemma_share_bound(r, f, t);
            assert(given * t <= r * noted_flex(d, p.flex_indices, k - 1));
            assert((given + share) * t <= r * noted_flex(d, p.flex_indices, k)) by (nonlinear_arith)
                requires
                    given * t <= r * noted_flex(d, p.flex_indices, k - 1),
                    share * t <= r * f,
                    noted_flex(d, p.flex_indices, k) == noted_flex(d, p.flex_indices, k - 1) + f,
            ;
            assert(given + share <= r) by (nonlinear_arith)
                requires
                    (given + share) * t <= r * noted_flex(d, p.flex_indices, k),
                    noted_flex(d, p.flex_indices, k) <= t,
                    t > 0,
                    r >= 0,
            ;
            assert(share <= r) by (nonlinear_arith)
                requires
                    share * t <= r * f,
                    f <= t,
                    t > 0,
                    r >= 0,
                    share >= 0,
            ;
        }
        assert(w[ci] == 0);
        let share16: u16 = if k - 1 == m - 1 {
            sat_sub(p.remaining, given)
        } else {
            ((p.remaining * flex_of(d[ci])) / (p.flex_total as int)) as u16
        };
        lemma_sum16_update(w, ci, share16);
        assert forall|j: int| k <= j < m implies w.update(ci, share16)[#[trigger] p.flex_indices[j]] == 0 by {
            assert(p.flex_indices[k - 1] < p.flex_indices[j]);
        }
        assert(second_pass(d, p, k) == (w.update(ci, share16), sat_add(given, share16)));
        if k - 1 == m - 1 {
            assert(share16 == r - given);
            assert(sat_add(given, share16) == r);
        } else {
            assert(share16 as int == r * f / t);
            assert(sat_add(given, share16) == given + share16);
        }
    }
}

/// The noted flex factors grow with the prefix, up to their total.
pub proof fn lemma_noted_flex_mono(d: Seq<WidthDemand>, idx: Seq<int>, i: int, j: int)
    requires
        0 <= i <= j,
    ensures
        noted_flex(d, idx, i) <= noted_flex(d, idx, j),
    decreases j - i,
{
    if i < j {
        lemma_noted_flex_mono(d, idx, i, j - 1);
    }
}

/// Flex columns leave room for the separators: when the fixed and automatic
/// columns and the separators fit in the room (and the flex factors add up
/// within 16 bits), the widths and one separator between neighbouring columns
/// fit too; with a flex column and room left, they fill it exactly.
pub proof fn law_widths_fit(d: Seq<WidthDemand>, available: u16)
    requires
        d.len() > 0,
        available > 0,
        total_demand(d, d.len() as int) + (d.len() - 1) <= available,
        total_flex(d, d.len() as int) <= u16::MAX,
    ensures
        column_widths(d, available).len() == d.len(),
        sum16(column_widths(d, available)) + (d.len() - 1) <= available,
        ({
            let p = first_pass(d, available, d.len() as int);
            (p.flex_total > 0 && p.remaining > 0) ==> sum16(column_widths(d, available)) + (d.len() - 1)
                == available
        }),
{
    let n = d.len() as int;
    lemma_first_pass_fits(d, available, n);
    let p = first_pass(d, available, n);
    if p.flex_total > 0 && p.remaining > 0 {
        lemma_second_pass_sums(d, p, p.flex_indices.len() as int);
    }
}

/// The flex factor of a demand (zero for others).
fn flex_of_exec(d: WidthDemand) -> (f: u16)
    ensures
        f == flex_of(d),
{
    match d {
        WidthDemand::Flex(f) => f,
        _ => 0,
    }
}

/// Each flex factor noted is at most the (saturating) total, and each noted
/// index is below `k`.
pub proof fn lemma_flex_total_bounds(d: Seq<WidthDemand>, available: u16, k: int)
    requires
        0 <= k <= d.len(),
    ensures
        forall|j: int| 0 <= j < first_pass(d, available, k).flex_indices.len() ==> {
            &&& 0 <= #[trigger] first_pass(d, available, k).flex_indices[j] < k
            &&& flex_of(d[first_pass(d, available, k).flex_indices[j]]) <= first_pass(d, available, k).flex_total
        },
        first_pass(d, available, k).widths.len() == d.len(),
    decreases k,
{
    if k > 0 {
        lemma_flex_total_bounds(d, available, k - 1);
    }
}


/// The widest of the title and the texts, in 16-bit cells.
pub open spec fn auto_width(title: Seq<char>, texts: Seq<Seq<char>>, k: int) -> u16
    decreases k,
{
    if k <= 0 {
        (text_width(title) % 0x10000) as u16
    } else {
        let m = auto_width(title, texts, k - 1);
        let w = (text_width(texts[k - 1]) % 0x10000) as u16;
        if w > m {
            w
        } else {
            m
        }
    }
}

/// `w` is what an automatic column asks for over `rows`: the widest of its
/// title and of texts its reader gives for the rows.
pub open spec fn auto_demand<T: Clone>(col: &Column<T>, rows: Seq<T>, w: u16) -> bool {
    exists|texts: Seq<Seq<char>>|
        #![trigger auto_width(col.title@, texts, rows.len() as int)]
        texts.len() == rows.len() && (forall|r: int| 0 <= r < rows.len() ==> col.accessor.gives(rows[r], #[trigger] texts[r]))
            && w == auto_width(col.title@, texts, rows.len() as int)
}

/// `dm` is what column `col` asks for over `rows`.
pub open spec fn demand_for<T: Clone>(col: &Column<T>, rows: Seq<T>, dm: WidthDemand) -> bool {
    match col.width {
        ColumnWidth::Fixed(w) => dm == WidthDemand::Fixed(w),
        ColumnWidth::Flex(f) => dm == WidthDemand::Flex(f),
        ColumnWidth::Auto => dm matches WidthDemand::Auto(w) && auto_demand(col, rows, w),
    }
}

/// The rows among `sel` that are still in a table of `n` rows, in order.
pub open spec fn present(sel: Seq<usize>, n: int) -> Seq<usize>
    decreases sel.len(),
{
    if sel.len() == 0 {
        Seq::empty()
    } else if sel.last() < n {
        present(sel.drop_last(), n).push(sel.last())
    } else {
        present(sel.drop_last(), n)
    }
}

/// `e` reports the rows `sel` of `rows` (those present, each a clone), focus
/// `focus` and offset `offset`.
pub open spec fn reports_rows<T: Clone>(e: TableSelectionEvent<T>, rows: Seq<T>, sel: Seq<usize>, focus: Option<usize>, offset: usize) -> bool {
    let ps = present(sel, rows.len() as int);
    &&& e.selected_rows@.len() == ps.len()
    &&& forall|k: int| 0 <= k < ps.len() ==> cloned(rows[ps[k] as int], #[trigger] e.selected_rows@[k])
    &&& e.focused_index == focus
    &&& e.scroll_offset == offset
}

/// What the select callback gives for a selection change.
pub open spec fn table_fired<T: Clone, M>(
    h: Option<Box<dyn Handler<(TableSelectionEvent<T>,), M>>>,
    rows: Seq<T>,
    sel: Seq<usize>,
    focus: Option<usize>,
    offset: usize,
    out: Seq<M>,
) -> bool {
    match h {
        Some(f) => out.len() == 1 && exists|e: TableSelectionEvent<T>| reports_rows(e, rows, sel, focus, offset) && #[trigger] f.gives((e,), out[0]),
        None => out.len() == 0,
    }
}

/// A row move of a table.
#[derive(Debug, Clone, Copy, PartialEq, Eq, Structural)]
pub enum RowMove {
    Next,
    Previous,
    First,
    Last,
    PageDown,
    PageUp,
}

/// The row a move focuses (`None`: no row, nothing moves).
pub open spec fn row_target(mv: RowMove, focus: Option<usize>, n: int, viewport: u16) -> Option<int> {
    let page = if viewport >= 2 {
        viewport - 1
    } else {
        1
    };
    let current = match focus {
        Some(i) => i as int,
        None => 0,
    };
    if n == 0 {
        None
    } else {
        match mv {
            RowMove::Next => Some(match focus {
                Some(i) => if i + 1 < n - 1 {
                    i + 1
                } else {
                    n - 1
                },
                None => 0,
            }),
            RowMove::Previous => Some(match focus {
                Some(i) => if i >= 1 {
                    i - 1
                } else {
                    0
                },
                None => 0,
            }),
            RowMove::First => Some(0),
            RowMove::Last => Some(n - 1),
            RowMove::PageDown => Some(if current + page < n - 1 {
                current + page
            } else {
                n - 1
            }),
            RowMove::PageUp => Some(if current >= page {
                current - page
            } else {
                0
            }),
        }
    }
}

/// A move in a table with rows, from no focus or a focus on a row, lands on a
/// row.
pub proof fn law_row_target_in_range(mv: RowMove, focus: Option<usize>, n: int, viewport: u16)
    requires
        n > 0,
        focus matches Some(i) ==> i < n,
    ensures
        row_target(mv, focus, n, viewport) matches Some(f) && 0 <= f < n,
{
}


/// The styles a table draws with.
#[derive(Debug, Clone, Copy)]
pub struct TableStyles {
    pub normal: Style,
    pub header: Style,
    pub header_border: Style,
    pub focused: Style,
    pub selected: Style,
    pub striped: Style,
    pub border: Style,
    pub column_separator: Style,
    pub scrollbar_track: Style,
    pub scrollbar_thumb: Style,
}

/// What an event does to a table.
pub enum TableStep {
    Ignore,
    Move(RowMove),
    Toggle,
}

/// Arrows, Home, End, the page keys and the wheel move the focus; Enter, Space
/// and a left click toggle the focused row's selection.
pub open spec fn table_step(ev: Event) -> TableStep {
    match ev {
        Event::Key(k) => match k.code {
            KeyCode::Down => TableStep::Move(RowMove::Next),
            KeyCode::Up => TableStep::Move(RowMove::Previous),
            KeyCode::Home => TableStep::Move(RowMove::First),
            KeyCode::End => TableStep::Move(RowMove::Last),
            KeyCode::PageDown => TableStep::Move(RowMove::PageDown),
            KeyCode::PageUp => TableStep::Move(RowMove::PageUp),
            KeyCode::Enter => TableStep::Toggle,
            KeyCode::Char(c) => if c == ' ' {
                TableStep::Toggle
            } else {
                TableStep::Ignore
            },
            _ => TableStep::Ignore,
        },
        Event::Mouse(m) => match m.kind {
            MouseEventKind::Down(MouseButton::Left) => TableStep::Toggle,
            MouseEventKind::ScrollDown => TableStep::Move(RowMove::Next),
            MouseEventKind::ScrollUp => TableStep::Move(RowMove::Previous),
            _ => TableStep::Ignore,
        },
        _ => TableStep::Ignore,
    }
}

/// The shape of a table: everything but rows, selection, focus and scrolling.
pub struct TableSetup {
    pub mode: SelectionMode,
    pub horizontal_scroll: u16,
    pub viewport_height: u16,
    pub empty_message: Seq<char>,
    pub show_scrollbar: bool,
    pub show_header: bool,
    pub variant: TableVariant,
    pub border: Option<BorderStyle>,
    pub custom_style: Option<Style>,
    pub custom_header_style: Option<Style>,
    pub custom_focus_style: Option<Style>,
    pub custom_selected_style: Option<Style>,
    pub custom_striped_style: Option<Style>,
}

/// A table of rows of `T` under columns, reporting selections as `M`.
#[verifier::reject_recursive_types(T)]
#[verifier::reject_recursive_types(M)]
pub struct Table<T: Clone, M = ()> {
    columns: Vec<Column<T>>,
    rows: Vec<T>,
    selected_indices: Vec<usize>,
    focused_index: Option<usize>,
    selection_mode: SelectionMode,
    scroll_offset: usize,
    horizontal_scroll: u16,
    viewport_height: u16,
    empty_message: String,
    show_scrollbar: bool,
    show_header: bool,
    variant: TableVariant,
    border: Option<BorderStyle>,
    focused: bool,
    custom_style: Option<Style>,
    custom_header_style: Option<Style>,
    custom_focus_style: Option<Style>,
    custom_selected_style: Option<Style>,
    custom_striped_style: Option<Style>,
    on_select: Option<Box<dyn Handler<(TableSelectionEvent<T>,), M>>>,
}

/// Every column's reader accepts every row.
pub open spec fn columns_ready<T: Clone>(cols: Seq<Column<T>>) -> bool {
    forall|i: int| 0 <= i < cols.len() ==> (#[trigger] cols[i]).accessor.ready()
}

impl<T: Clone, M> Table<T, M> {
    #[verifier::type_invariant]
    spec fn inv(&self) -> bool {
        &&& handler_ready(self.on_select)
        &&& columns_ready(self.columns@)
        &&& self.rows@.len() <= usize::MAX / 2
        &&& self.scroll_offset <= usize::MAX / 2
        &&& (self.focused_index matches Some(i) ==> i <= usize::MAX / 2)
    }

    pub closed spec fn cols(&self) -> Seq<Column<T>> {
        self.columns@
    }

    pub closed spec fn data(&self) -> Seq<T> {
        self.rows@
    }

    pub closed spec fn selection(&self) -> Seq<usize> {
        self.selected_indices@
    }

    pub closed spec fn focus(&self) -> Option<usize> {
        self.focused_index
    }

    pub closed spec fn offset(&self) -> usize {
        self.scroll_offset
    }

    pub closed spec fn has_focus(&self) -> bool {
        self.focused
    }

    pub closed spec fn select_handler(&self) -> Option<Box<dyn Handler<(TableSelectionEvent<T>,), M>>> {
        self.on_select
    }

    pub closed spec fn setup(&self) -> TableSetup {
        TableSetup {
            mode: self.selection_mode,
            horizontal_scroll: self.horizontal_scroll,
            viewport_height: self.viewport_height,
            empty_message: self.empty_message@,
            show_scrollbar: self.show_scrollbar,
            show_header: self.show_header,
            variant: self.variant,
            border: self.border,
            custom_style: self.custom_style,
            custom_header_style: self.custom_header_style,
            custom_focus_style: self.custom_focus_style,
            custom_selected_style: self.custom_selected_style,
            custom_striped_style: self.custom_striped_style,
        }
    }

    /// Columns, rows, setup and callback as in `other`.
    pub open spec fn same_table(&self, other: &Self) -> bool {
        &&& self.cols() == other.cols()
        &&& self.data() == other.data()
        &&& self.setup() == other.setup()
        &&& self.select_handler() == other.select_handler()
    }

    /// Selection, focus, scrolling and focus flag as in `other`.
    pub open spec fn same_state(&self, other: &Self) -> bool {
        &&& self.selection() == other.selection()
        &&& self.focus() == other.focus()
        &&& self.offset() == other.offset()
        &&& self.has_focus() == other.has_focus()
        &&& self.select_handler() == other.select_handler()
        &&& self.cols() == other.cols()
        &&& self.data() == other.data()
    }

    /// A table with the given columns and no rows: single selection, a viewport
    /// of ten rows, the message `No data`, a header and a scrollbar.
    pub fn new(columns: Vec<Column<T>>) -> (t: Self)
        requires
            columns_ready(columns@),
        ensures
            t.cols() == columns@,
            t.data().len() == 0 && t.selection().len() == 0,
            t.focus().is_none() && t.offset() == 0 && !t.has_focus(),
            t.setup() == (TableSetup {
                mode: SelectionMode::Single,
                horizontal_scroll: 0,
                viewport_height: 10,
                empty_message: seq!['N', 'o', ' ', 'd', 'a', 't', 'a'],
                show_scrollbar: true,
                show_header: true,
                variant: TableVariant::Simple,
                border: None,
                custom_style: None,
                custom_header_style: None,
                custom_focus_style: None,
                custom_selected_style: None,
                custom_striped_style: None,
            }),
            t.select_handler().is_none(),
    {
        proof {
            reveal_strlit("No data");
            assert("No data"@ =~= seq!['N', 'o', ' ', 'd', 'a', 't', 'a']);
        }
        Table {
            columns,
            rows: Vec::new(),
            selected_indices: Vec::new(),
            focused_index: None,
            selection_mode: SelectionMode::Single,
            scroll_offset: 0,
            horizontal_scroll: 0,
            viewport_height: 10,
            empty_message: owned("No data"),
            show_scrollbar: true,
            show_header: true,
            variant: TableVariant::Simple,
            border: None,
            focused: false,
            custom_style: None,
            custom_header_style: None,
            custom_focus_style: None,
            custom_selected_style: None,
            custom_striped_style: None,
            on_select: None,
        }
    }

    /// A table for display only: no selection, no scrollbar.
    pub fn static_table(columns: Vec<Column<T>>) -> (t: Self)
        requires
            columns_ready(columns@),
        ensures
            t.cols() == columns@,
            t.data().len() == 0 && t.selection().len() == 0,
            t.focus().is_none() && t.offset() == 0,
            t.setup().mode == SelectionMode::Off,
            !t.setup().show_scrollbar,
            t.select_handler().is_none(),
    {
        Self::new(columns).selection_mode(SelectionMode::Off).show_scrollbar(false)
    }

    /// Sets the rows; the first row takes the focus when none has it (no
    /// machine holds more rows than the bound).
    pub fn rows(self, rows: Vec<T>) -> (t: Self)
        requires
            rows@.len() <= usize::MAX / 2,
        ensures
            t.data() == rows@,
            t.focus() == if rows@.len() > 0 && self.focus().is_none() {
                Some(0usize)
            } else {
                self.focus()
            },
            t.cols() == self.cols() && t.setup() == self.setup(),
            t.selection() == self.selection() && t.offset() == self.offset(),
            t.has_focus() == self.has_focus() && t.select_handler() == self.select_handler(),
    {
        proof { use_type_invariant(&self); }
        let focused_index = if rows.len() > 0 && self.focused_index.is_none() {
            Some(0)
        } else {
            self.focused_index
        };
        Table { rows, focused_index, ..self }
    }

    /// Appends a row; the first row takes the focus when none has it.
    pub fn row(self, row: T) -> (t: Self)
        requires
            self.data().len() < usize::MAX / 2,
        ensures
            t.data() == self.data().push(row),
            t.focus() == if self.focus().is_none() {
                Some(0usize)
            } else {
                self.focus()
            },
            t.cols() == self.cols() && t.setup() == self.setup(),
            t.selection() == self.selection() && t.offset() == self.offset(),
            t.has_focus() == self.has_focus() && t.select_handler() == self.select_handler(),
    {
        proof { use_type_invariant(&self); }
        let mut rows = self.rows;
        rows.push(row);
        let focused_index = match self.focused_index {
            Some(f) => Some(f),
            None => Some(0),
        };
        Table { rows, focused_index, ..self }
    }

    pub fn selection_mode(self, mode: SelectionMode) -> (t: Self)
        ensures
            t.setup() == (TableSetup { mode, ..self.setup() }),
            t.same_state(&self),
    {
        proof { use_type_invariant(&self); }
        Table { selection_mode: mode, ..self }
    }

    /// Focuses row `index` and scrolls it into view; ignored unless it is a row.
    pub fn focused_index(self, index: Option<usize>) -> (t: Self)
        ensures
            (index matches Some(i) && i < self.data().len()) ==> t.focus() == index && t.offset()
                == visible_offset(self.offset() as int, self.setup().viewport_height as int, index.unwrap() as int),
            !(index matches Some(i) && i < self.data().len()) ==> t.focus() == self.focus() && t.offset() == self.offset(),
            t.same_table(&self),
            t.selection() == self.selection() && t.has_focus() == self.has_focus(),
    {
        proof { use_type_invariant(&self); }
        if let Some(idx) = index {
            if idx < self.rows.len() {
                let mut t = Table { focused_index: Some(idx), ..self };
                t.ensure_focused_visible();
                return t;
            }
        }
        self
    }

    /// Scrolls to `offset`, at most to the last row.
    pub fn scroll_offset(self, offset: usize) -> (t: Self)
        ensures
            t.offset() == if offset < self.data().len() {
                offset as int
            } else if self.data().len() > 0 {
                self.data().len() - 1
            } else {
                0
            },
            t.same_table(&self),
            t.selection() == self.selection() && t.focus() == self.focus() && t.has_focus() == self.has_focus(),
    {
        proof { use_type_invariant(&self); }
        let max_offset = if self.rows.len() > 0 {
            self.rows.len() - 1
        } else {
            0
        };
        let o = if offset < max_offset {
            offset
        } else {
            max_offset
        };
        Table { scroll_offset: o, ..self }
    }

    /// Sets the rows shown at once; with none, moving the focus below the
    /// offset leaves the offset where it is (see `visible_offset`).
    pub fn viewport_height(self, height: u16) -> (t: Self)
        ensures
            t.setup() == (TableSetup { viewport_height: height, ..self.setup() }),
            t.same_state(&self),
    {
        proof { use_type_invariant(&self); }
        Table { viewport_height: height, ..self }
    }

    pub fn empty_message(self, message: &str) -> (t: Self)
        ensures
            t.setup() == (TableSetup { empty_message: message@, ..self.setup() }),
            t.same_state(&self),
    {
        proof { use_type_invariant(&self); }
        Table { empty_message: owned(message), ..self }
    }

    pub fn show_scrollbar(self, show: bool) -> (t: Self)
        ensures
            t.setup() == (TableSetup { show_scrollbar: show, ..self.setup() }),
            t.same_state(&self),
    {
        proof { use_type_invariant(&self); }
        Table { show_scrollbar: show, ..self }
    }

    pub fn show_header(self, show: bool) -> (t: Self)
        ensures
            t.setup() == (TableSetup { show_header: show, ..self.setup() }),
            t.same_state(&self),
    {
        proof { use_type_invariant(&self); }
        Table { show_header: show, ..self }
    }

    /// Selects the given rows, dropping indices past the rows.
    pub fn selected(self, indices: Vec<usize>) -> (t: Self)
        ensures
            t.selection() == present(indices@, self.data().len() as int),
            t.same_table(&self),
            t.focus() == self.focus() && t.offset() == self.offset() && t.has_focus() == self.has_focus(),
    {
        proof { use_type_invariant(&self); }
        let mut sel: Vec<usize> = Vec::new();
        let mut i: usize = 0;
        while i < indices.len()
            invariant
                i <= indices@.len(),
                sel@ == present(indices@.take(i as int), self.rows@.len() as int),
            decreases indices@.len() - i,
        {
            proof {
                assert(indices@.take(i as int + 1).drop_last() =~= indices@.take(i as int));
            }
            if indices[i] < self.rows.len() {
                sel.push(indices[i]);
            }
            i = i + 1;
        }
        proof {
            assert(indices@.take(indices@.len() as int) =~= indices@);
        }
        Table { selected_indices: sel, ..self }
    }

    /// Sets the callback called with each selection change.
    pub fn on_select<F: Fn(TableSelectionEvent<T>) -> M + 'static>(self, handler: F) -> (t: Self)
        requires
            forall|a: (TableSelectionEvent<T>,)| call_requires(handler, a),
        ensures
            t.select_handler().is_some(),
            forall|a: (TableSelectionEvent<T>,), m: M| t.select_handler().unwrap().gives(a, m) == call_ensures(handler, a, m),
            t.cols() == self.cols() && t.data() == self.data() && t.setup() == self.setup(),
            t.selection() == self.selection() && t.focus() == self.focus(),
            t.offset() == self.offset() && t.has_focus() == self.has_focus(),
    {
        proof { use_type_invariant(&self); }
        let h: Box<dyn Handler<(TableSelectionEvent<T>,), M>> = Box::new(handler);
        Table {
            columns: self.columns,
            rows: self.rows,
            selected_indices: self.selected_indices,
            focused_index: self.focused_index,
            selection_mode: self.selection_mode,
            scroll_offset: self.scroll_offset,
            horizontal_scroll: self.horizontal_scroll,
            viewport_height: self.viewport_height,
            empty_message: self.empty_message,
            show_scrollbar: self.show_scrollbar,
            show_header: self.show_header,
            variant: self.variant,
            border: self.border,
            focused: self.focused,
            custom_style: self.custom_style,
            custom_header_style: self.custom_header_style,
            custom_focus_style: self.custom_focus_style,
            custom_selected_style: self.custom_selected_style,
            custom_striped_style: self.custom_striped_style,
            on_select: Some(h),
        }
    }

    pub fn style(self, style: Style) -> (t: Self)
        ensures
            t.setup() == (TableSetup { custom_style: Some(style), ..self.setup() }),
            t.same_state(&self),
    {
        proof { use_type_invariant(&self); }
        Table { custom_style: Some(style), ..self }
    }

    pub fn header_style(self, style: Style) -> (t: Self)
        ensures
            t.setup() == (TableSetup { custom_header_style: Some(style), ..self.setup() }),
            t.same_state(&self),
    {
        proof { use_type_invariant(&self); }
        Table { custom_header_style: Some(style), ..self }
    }

    pub fn focus_style(self, style: Style) -> (t: Self)
        ensures
            t.setup() == (TableSetup { custom_focus_style: Some(style), ..self.setup() }),
            t.same_state(&self),
    {
        proof { use_type_invariant(&self); }
        Table { custom_focus_style: Some(style), ..self }
    }

    pub fn selected_style(self, style: Style) -> (t: Self)
        ensures
            t.setup() == (TableSetup { custom_selected_style: Some(style), ..self.setup() }),
            t.same_state(&self),
    {
        proof { use_type_invariant(&self); }
        Table { custom_selected_style: Some(style), ..self }
    }

    pub fn striped_style(self, style: Style) -> (t: Self)
        ensures
            t.setup() == (TableSetup { custom_striped_style: Some(style), ..self.setup() }),
            t.same_state(&self),
    {
        proof { use_type_invariant(&self); }
        Table { custom_striped_style: Some(style), ..self }
    }

    pub fn variant(self, variant: TableVariant) -> (t: Self)
        ensures
            t.setup() == (TableSetup { variant, ..self.setup() }),
            t.same_state(&self),
    {
        proof { use_type_invariant(&self); }
        Table { variant, ..self }
    }

    pub fn border(self, border: BorderStyle) -> (t: Self)
        ensures
            t.setup() == (TableSetup { border: Some(border), ..self.setup() }),
            t.same_state(&self),
    {
        proof { use_type_invariant(&self); }
        Table { border: Some(border), ..self }
    }

    /// What column `i` asks for over the rows.
    pub fn column_demand(&self, i: usize) -> (dm: WidthDemand)
        requires
            i < self.cols().len(),
        ensures
            demand_for(&self.cols()[i as int], self.data(), dm),
    {
        proof { use_type_invariant(self); }
        let col = &self.columns[i];
        match col.width {
            ColumnWidth::Fixed(w) => WidthDemand::Fixed(w),
            ColumnWidth::Flex(f) => WidthDemand::Flex(f),
            ColumnWidth::Auto => {
                let ghost mut texts: Seq<Seq<char>> = Seq::empty();
                let mut max_width = (str_width(col.title.as_str()) % 0x10000) as u16;
                let mut r: usize = 0;
                proof {
                    assert(col.accessor.ready());
                }
                while r < self.rows.len()
                    invariant
                        r <= self.rows@.len(),
                        col == &self.columns@[i as int],
                        col.accessor.ready(),
                        texts.len() == r,
                        forall|k: int| 0 <= k < r ==> col.accessor.gives(self.rows@[k], #[trigger] texts[k]),
                        max_width == auto_width(col.title@, texts, r as int),
                    decreases self.rows@.len() - r,
                {
                    let cell = col.accessor.cell(&self.rows[r]);
                    let w = (str_width(cell.as_str()) % 0x10000) as u16;
                    proof {
                        let old_texts = texts;
                        texts = texts.push(cell@);
                        assert forall|k: int| 0 <= k < r implies auto_width(col.title@, texts, k) == auto_width(col.title@, old_texts, k) by {
                            lemma_auto_width_prefix(col.title@, texts, old_texts, k);
                        }
                        lemma_auto_width_prefix(col.title@, texts, old_texts, r as int);
                    }
                    if w > max_width {
                        max_width = w;
                    }
                    r = r + 1;
                }
                proof {
                    assert(auto_demand(col, self.rows@, max_width));
                }
                WidthDemand::Auto(max_width)
            },
        }
    }

    /// The widths of the columns in `available_width` columns of room: fixed and
    /// automatic columns first, as far as there is room, one column kept for
    /// each separator, and the room left shared among the flex columns.
    pub fn compute_column_widths(&self, available_width: u16) -> (widths: Vec<u16>)
        ensures
            widths@.len() == self.cols().len(),
            exists|d: Seq<WidthDemand>|
                d.len() == self.cols().len() && (forall|i: int| 0 <= i < d.len() ==> demand_for(&self.cols()[i], self.data(), #[trigger] d[i]))
                    && widths@ == column_widths(d, available_width),
    {
        let n = self.columns.len();
        let mut demands: Vec<WidthDemand> = Vec::new();
        let mut i: usize = 0;
        while i < n
            invariant
                n == self.cols().len(),
                i <= n,
                demands@.len() == i,
                forall|k: int| 0 <= k < i ==> demand_for(&self.cols()[k], self.data(), #[trigger] demands@[k]),
            decreases n - i,
        {
            let dm = self.column_demand(i);
            demands.push(dm);
            i = i + 1;
        }
        let widths = distribute_widths(&demands, available_width);
        proof {
            lemma_column_widths_len(demands@, available_width);
        }
        widths
    }

    /// `self` is `prev` after the move `mv`: the target row focused and scrolled
    /// into view, or nothing changed when there is no row.
    pub open spec fn moved_from(&self, prev: &Self, mv: RowMove) -> bool {
        &&& self.same_table(prev)
        &&& self.selection() == prev.selection()
        &&& self.has_focus() == prev.has_focus()
        &&& match row_target(mv, prev.focus(), prev.data().len() as int, prev.setup().viewport_height) {
            Some(f) => self.focus() == Some(f as usize) && self.offset() as int == visible_offset(
                prev.offset() as int,
                prev.setup().viewport_height as int,
                f,
            ),
            None => self.focus() == prev.focus() && self.offset() == prev.offset(),
        }
    }

    /// Scrolls the least distance that brings the focused row into view.
    fn ensure_focused_visible(&mut self)
        ensures
            final(self).offset() as int == match old(self).focus() {
                Some(f) => visible_offset(old(self).offset() as int, old(self).setup().viewport_height as int, f as int),
                None => old(self).offset() as int,
            },
            final(self).same_table(old(self)),
            final(self).selection() == old(self).selection(),
            final(self).focus() == old(self).focus(),
            final(self).has_focus() == old(self).has_focus(),
    {
        proof { use_type_invariant(&*self); }
        if let Some(focused_idx) = self.focused_index {
            let viewport_size = self.viewport_height as usize;
            if focused_idx < self.scroll_offset {
                self.scroll_offset = focused_idx;
            } else if viewport_size > 0 && focused_idx >= self.scroll_offset + viewport_size {
                self.scroll_offset = focused_idx - (viewport_size - 1);
            }
        }
    }

    /// Moves the focus as `mv` says, then scrolls it into view.
    fn move_focus(&mut self, mv: RowMove)
        ensures
            final(self).moved_from(old(self), mv),
    {
        proof { use_type_invariant(&*self); }
        let n = self.rows.len();
        if n == 0 {
            return;
        }
        let page: usize = if self.viewport_height >= 2 {
            (self.viewport_height - 1) as usize
        } else {
            1
        };
        let current: usize = match self.focused_index {
            Some(i) => i,
            None => 0,
        };
        let target: usize = match mv {
            RowMove::Next => match self.focused_index {
                Some(i) => if i + 1 < n - 1 {
                    i + 1
                } else {
                    n - 1
                },
                None => 0,
            },
            RowMove::Previous => match self.focused_index {
                Some(i) => if i >= 1 {
                    i - 1
                } else {
                    0
                },
                None => 0,
            },
            RowMove::First => 0,
            RowMove::Last => n - 1,
            RowMove::PageDown => if current + page < n - 1 {
                current + page
            } else {
                n - 1
            },
            RowMove::PageUp => if current >= page {
                current - page
            } else {
                0
            },
        };
        self.focused_index = Some(target);
        self.ensure_focused_visible();
    }

    /// Focuses the next row (the first when none has focus).
    fn focus_next(&mut self)
        ensures
            final(self).moved_from(old(self), RowMove::Next),
    {
        self.move_focus(RowMove::Next);
    }

    /// Focuses the previous row (the first when none has focus).
    fn focus_previous(&mut self)
        ensures
            final(self).moved_from(old(self), RowMove::Previous),
    {
        self.move_focus(RowMove::Previous);
    }

    /// Focuses the first row.
    fn focus_first(&mut self)
        ensures
            final(self).moved_from(old(self), RowMove::First),
    {
        self.move_focus(RowMove::First);
    }

    /// Focuses the last row.
    fn focus_last(&mut self)
        ensures
            final(self).moved_from(old(self), RowMove::Last),
    {
        self.move_focus(RowMove::Last);
    }

    /// Moves the focus a page (the viewport less one row, at least one) down.
    fn page_down(&mut self)
        ensures
            final(self).moved_from(old(self), RowMove::PageDown),
    {
        self.move_focus(RowMove::PageDown);
    }

    /// Moves the focus a page up.
    fn page_up(&mut self)
        ensures
            final(self).moved_from(old(self), RowMove::PageUp),
    {
        self.move_focus(RowMove::PageUp);
    }

    /// The callback's message for the current selection.
    fn emit_selection(&self) -> (out: Vec<M>)
        ensures
            table_fired(self.select_handler(), self.data(), self.selection(), self.focus(), self.offset(), out@),
    {
        proof { use_type_invariant(self); }
        match &self.on_select {
            Some(h) => {
                let ghost sel = self.selected_indices@;
                let ghost n = self.rows@.len() as int;
                let mut picked: Vec<T> = Vec::new();
                let mut k: usize = 0;
                while k < self.selected_indices.len()
                    invariant
                        sel == self.selected_indices@,
                        n == self.rows@.len(),
                        k <= sel.len(),
                        picked@.len() == present(sel.take(k as int), n).len(),
                        forall|j: int| 0 <= j < picked@.len() ==> cloned(self.rows@[present(sel.take(k as int), n)[j] as int], #[trigger] picked@[j]),
                    decreases sel.len() - k,
                {
                    let idx = self.selected_indices[k];
                    proof {
                        assert(sel.take(k as int + 1).drop_last() =~= sel.take(k as int));
                    }
                    if idx < self.rows.len() {
                        let v = self.rows[idx].clone();
                        picked.push(v);
                    }
                    k = k + 1;
                }
                proof {
                    assert(sel.take(sel.len() as int) =~= sel);
                }
                let event = TableSelectionEvent {
                    selected_rows: picked,
                    focused_index: self.focused_index,
                    scroll_offset: self.scroll_offset,
                };
                let ghost e = event;
                let m = h.call((event,));
                let mut out = Vec::new();
                out.push(m);
                proof {
                    assert(reports_rows(e, self.rows@, sel, self.focused_index, self.scroll_offset));
                    assert(h.gives((e,), out@[0]));
                }
                out
            },
            None => Vec::new(),
        }
    }

    /// Toggles the focused row's selection (one row in single mode, any number
    /// in multiple mode) and gives the callback's message; nothing happens
    /// without selection or without focus.
    fn toggle_selection(&mut self) -> (out: Vec<M>)
        ensures
            final(self).same_table(old(self)),
            final(self).focus() == old(self).focus(),
            final(self).offset() == old(self).offset(),
            final(self).has_focus() == old(self).has_focus(),
            (old(self).setup().mode == SelectionMode::Off || old(self).focus().is_none())
                ==> final(self).selection() == old(self).selection() && out@.len() == 0,
            !(old(self).setup().mode == SelectionMode::Off || old(self).focus().is_none()) ==> final(self).selection()
                == toggled(old(self).selection(), old(self).setup().mode, old(self).focus().unwrap())
                && table_fired(old(self).select_handler(), old(self).data(), final(self).selection(), old(self).focus(), old(self).offset(), out@),
    {
        proof { use_type_invariant(&*self); }
        if let SelectionMode::Off = self.selection_mode {
            return Vec::new();
        }
        let focused_idx = match self.focused_index {
            Some(i) => i,
            None => {
                return Vec::new();
            },
        };
        let pos = find_pos(&self.selected_indices, focused_idx);
        let mut sel = self.selected_indices.clone();
        proof {
            assert(sel@ =~= self.selected_indices@);
        }
        match self.selection_mode {
            SelectionMode::Single => {
                if pos < sel.len() {
                    sel = Vec::new();
                } else {
                    sel = Vec::new();
                    sel.push(focused_idx);
                }
            },
            SelectionMode::Multiple => {
                if pos < sel.len() {
                    sel.remove(pos);
                } else {
                    sel.push(focused_idx);
                }
            },
            SelectionMode::Off => {},
        }
        proof {
            assert(sel@ =~= toggled(old(self).selected_indices@, old(self).selection_mode, focused_idx));
        }
        self.selected_indices = sel;
        self.emit_selection()
    }

    /// The styles the table draws with under `theme`: each custom style where
    /// one is set, else the theme's.
    pub fn get_styles(&self, theme: &Theme) -> (s: TableStyles)
        ensures
            s.normal == match self.setup().custom_style {
                Some(c) => c,
                None => styled(Some(theme.colors.text), None, false),
            },
            s.header == match self.setup().custom_header_style {
                Some(c) => c,
                None => styled(Some(theme.colors.text), None, true),
            },
            s.focused == match self.setup().custom_focus_style {
                Some(c) => c,
                None => styled(Some(theme.colors.text), Some(theme.colors.focus_background), false),
            },
            s.selected == match self.setup().custom_selected_style {
                Some(c) => c,
                None => styled(Some(theme.colors.text), Some(theme.colors.primary), false),
            },
            s.striped == match self.setup().custom_striped_style {
                Some(c) => c,
                None => styled(Some(theme.colors.text), Some(theme.colors.surface), false),
            },
            s.border == styled(Some(theme.colors.border), Some(theme.colors.background), false),
            s.header_border == s.border,
            s.column_separator == styled(Some(theme.colors.border), None, false),
            s.scrollbar_track == styled(Some(theme.colors.border), None, false),
            s.scrollbar_thumb == styled(Some(theme.colors.info), None, false),
    {
        let c = &theme.colors;
        let normal = match self.custom_style {
            Some(s) => s,
            None => make_style(Some(c.text), None, false),
        };
        let header = match self.custom_header_style {
            Some(s) => s,
            None => make_style(Some(c.text), None, true),
        };
        let focused = match self.custom_focus_style {
            Some(s) => s,
            None => make_style(Some(c.text), Some(c.focus_background), false),
        };
        let selected = match self.custom_selected_style {
            Some(s) => s,
            None => make_style(Some(c.text), Some(c.primary), false),
        };
        let striped = match self.custom_striped_style {
            Some(s) => s,
            None => make_style(Some(c.text), Some(c.surface), false),
        };
        let border = make_style(Some(c.border), Some(c.background), false);
        TableStyles {
            normal,
            header,
            header_border: border,
            focused,
            selected,
            striped,
            border,
            column_separator: make_style(Some(c.border), None, false),
            scrollbar_track: make_style(Some(c.border), None, false),
            scrollbar_thumb: make_style(Some(c.info), None, false),
        }
    }
}

/// The cells a column adds to a table's natural width: its fixed or automatic
/// width, or ten cells for each flex unit (at most the largest `u16`).
pub open spec fn demand_cells(d: WidthDemand) -> u16 {
    match d {
        WidthDemand::Fixed(w) => w,
        WidthDemand::Auto(w) => w,
        WidthDemand::Flex(f) => if f * 10 > u16::MAX {
            u16::MAX
        } else {
            (f * 10) as u16
        },
    }
}

/// The natural width of the first `k` columns, each with its separator
/// (saturating).
pub open spec fn natural_width(d: Seq<WidthDemand>, k: int) -> u16
    decreases k,
{
    if k <= 0 {
        0
    } else {
        sat_add(sat_add(natural_width(d, k - 1), demand_cells(d[k - 1])), 1)
    }
}

/// The size of a table whose columns ask for `d`, with `rows` rows: without
/// columns 20 by 3; else its natural width, plus two for a scrollbar shown when
/// the rows exceed the viewport, by a header of two lines (when shown) and the
/// rows up to the viewport (one line when there are none); at least 20 by 3.
pub open spec fn table_size(d: Seq<WidthDemand>, rows: int, viewport: int, show_scrollbar: bool, show_header: bool) -> (u16, u16) {
    if d.len() == 0 {
        (20, 3)
    } else {
        let bar: u16 = if show_scrollbar && rows > viewport {
            2
        } else {
            0
        };
        let w = sat_add(natural_width(d, d.len() as int), bar);
        let content = if rows == 0 {
            1
        } else if rows < viewport {
            rows
        } else {
            viewport
        };
        let h = ((if show_header {
            2int
        } else {
            0int
        }) + content) % 0x10000;
        ((if w > 20 {
            w
        } else {
            20
        }) as u16, (if h > 3 {
            h
        } else {
            3
        }) as u16)
    }
}

impl<T: Clone, M> Table<T, M> {
    /// The size constraints of a table whose columns ask for `d`.
    pub open spec fn sized_by(&self, d: Seq<WidthDemand>, c: ConstraintsView) -> bool {
        &&& d.len() == self.cols().len()
        &&& forall|i: int| 0 <= i < d.len() ==> demand_for(&self.cols()[i], self.data(), #[trigger] d[i])
        &&& ({
            let (w, h) = table_size(
                d,
                self.data().len() as int,
                self.setup().viewport_height as int,
                self.setup().show_scrollbar,
                self.setup().show_header,
            );
            c == (ConstraintsView { min_width: w, max_width: Some(w), min_height: h, max_height: Some(h), flex: None })
        })
    }
}

impl<T: Clone, M> Widget<M> for Table<T, M> {
    open spec fn can_focus(&self) -> bool {
        self.setup().mode != SelectionMode::Off && self.data().len() > 0
    }

    open spec fn focus_flag(&self) -> bool {
        self.has_focus()
    }

    open spec fn keeps_focus(&self) -> bool {
        true
    }

    /// An event that is no step of the table.
    open spec fn passes_over(&self, event: Event) -> bool {
        table_step(event) is Ignore
    }

    /// Focus moves (arrows, Home, End, page keys, wheel) and selection toggles
    /// (Enter, Space, left click) are consumed; everything else is ignored.
    fn handle_event(&mut self, event: &Event) -> (r: EventResult<M>)
        ensures
            final(self).same_table(old(self)),
            final(self).has_focus() == old(self).has_focus(),
            match table_step(*event) {
                TableStep::Ignore => r is Ignored && final(self).selection() == old(self).selection()
                    && final(self).focus() == old(self).focus() && final(self).offset() == old(self).offset(),
                TableStep::Move(mv) => (r matches EventResult::Consumed(v) && v@.len() == 0) && final(self).moved_from(old(self), mv),
                TableStep::Toggle => final(self).focus() == old(self).focus() && final(self).offset() == old(self).offset()
                    && (r matches EventResult::Consumed(v) && (if old(self).setup().mode == SelectionMode::Off || old(self).focus().is_none() {
                    final(self).selection() == old(self).selection() && v@.len() == 0
                } else {
                    final(self).selection() == toggled(old(self).selection(), old(self).setup().mode, old(self).focus().unwrap())
                        && table_fired(old(self).select_handler(), old(self).data(), final(self).selection(), old(self).focus(), old(self).offset(), v@)
                })),
            },
    {
        match event {
            Event::Key(k) => match k.code {
                KeyCode::Down => {
                    self.focus_next();
                    EventResult::Consumed(Vec::new())
                },
                KeyCode::Up => {
                    self.focus_previous();
                    EventResult::Consumed(Vec::new())
                },
                KeyCode::Home => {
                    self.focus_first();
                    EventResult::Consumed(Vec::new())
                },
                KeyCode::End => {
                    self.focus_last();
                    EventResult::Consumed(Vec::new())
                },
                KeyCode::PageDown => {
                    self.page_down();
                    EventResult::Consumed(Vec::new())
                },
                KeyCode::PageUp => {
                    self.page_up();
                    EventResult::Consumed(Vec::new())
                },
                KeyCode::Enter => EventResult::Consumed(self.toggle_selection()),
                KeyCode::Char(c) => if c == ' ' {
                    EventResult::Consumed(self.toggle_selection())
                } else {
                    EventResult::Ignored
                },
                _ => EventResult::Ignored,
            },
            Event::Mouse(m) => match m.kind {
                MouseEventKind::Down(MouseButton::Left) => EventResult::Consumed(self.toggle_selection()),
                MouseEventKind::ScrollDown => {
                    self.focus_next();
                    EventResult::Consumed(Vec::new())
                },
                MouseEventKind::ScrollUp => {
                    self.focus_previous();
                    EventResult::Consumed(Vec::new())
                },
                _ => EventResult::Ignored,
            },
            _ => EventResult::Ignored,
        }
    }

    /// The natural size of the table (see `table_size`).
    fn constraints(&self) -> (c: Constraints)
        ensures
            exists|d: Seq<WidthDemand>| self.sized_by(d, c@),
    {
        proof { use_type_invariant(self); }
        let n = self.columns.len();
        if n == 0 {
            let c = Constraints { min_width: 20, max_width: Some(20), min_height: 3, max_height: Some(3), flex: None };
            proof {
                assert(self.sized_by(Seq::empty(), c@));
            }
            return c;
        }
        let ghost mut d: Seq<WidthDemand> = Seq::empty();
        let mut total: u16 = 0;
        let mut i: usize = 0;
        while i < n
            invariant
                n == self.cols().len(),
                i <= n,
                d.len() == i,
                forall|k: int| 0 <= k < i ==> demand_for(&self.cols()[k], self.data(), #[trigger] d[k]),
                total == natural_width(d, i as int),
            decreases n - i,
        {
            let dm = self.column_demand(i);
            let cells: u16 = match dm {
                WidthDemand::Fixed(w) => w,
                WidthDemand::Auto(w) => w,
                WidthDemand::Flex(f) => if f > 6553 {
                    u16::MAX
                } else {
                    f * 10
                },
            };
            proof {
                let d0 = d;
                d = d.push(dm);
                assert(natural_width(d0, i as int) == natural_width(d, i as int)) by {
                    lemma_natural_width_prefix(d0, d, i as int);
                }
            }
            total = total.saturating_add(cells).saturating_add(1);
            i = i + 1;
        }
        let rows = self.rows.len();
        let viewport = self.viewport_height as usize;
        let bar: u16 = if self.show_scrollbar && rows > viewport {
            2
        } else {
            0
        };
        let w = total.saturating_add(bar);
        let content: usize = if rows == 0 {
            1
        } else if rows < viewport {
            rows
        } else {
            viewport
        };
        let header: usize = if self.show_header {
            2
        } else {
            0
        };
        let h = ((header + content) % 0x10000) as u16;
        let width = if w > 20 {
            w
        } else {
            20
        };
        let height = if h > 3 {
            h
        } else {
            3
        };
        let c = Constraints {
            min_width: width,
            max_width: Some(width),
            min_height: height,
            max_height: Some(height),
            flex: None,
        };
        proof {
            assert(self.sized_by(d, c@));
        }
        c
    }

    /// A table takes focus when it selects and has rows.
    fn focusable(&self) -> (r: bool)
        ensures
            r == (self.setup().mode != SelectionMode::Off && self.data().len() > 0),
    {
        match self.selection_mode {
            SelectionMode::Off => false,
            _ => self.rows.len() > 0,
        }
    }

    fn is_focused(&self) -> (r: bool)
        ensures
            r == self.has_focus(),
    {
        self.focused
    }

    /// Sets the focus flag; a table gaining focus with rows and no focused row
    /// focuses its first row.
    fn set_focused(&mut self, focused: bool)
        ensures
            final(self).has_focus() == focused,
            final(self).same_table(old(self)),
            final(self).selection() == old(self).selection(),
            (focused && old(self).focus().is_none() && old(self).data().len() > 0) ==> final(self).focus() == Some(0usize)
                && final(self).offset() == 0,
            !(focused && old(self).focus().is_none() && old(self).data().len() > 0) ==> final(self).focus() == old(self).focus()
                && final(self).offset() == old(self).offset(),
    {
        proof { use_type_invariant(&*self); }
        self.focused = focused;
        if focused && self.focused_index.is_none() && self.rows.len() > 0 {
            self.focus_first();
        }
    }
}

/// A table with the given columns (see `Table::new`).
pub fn table<T: Clone, M>(columns: Vec<Column<T>>) -> (t: Table<T, M>)
    requires
        columns_ready(columns@),
    ensures
        t.cols() == columns@,
        t.data().len() == 0 && t.selection().len() == 0,
        t.focus().is_none() && t.offset() == 0 && !t.has_focus(),
        t.setup().mode == SelectionMode::Single && t.setup().viewport_height == 10,
        t.select_handler().is_none(),
{
    Table::new(columns)
}

/// `natural_width` of a prefix only reads the prefix.
pub proof fn lemma_natural_width_prefix(a: Seq<WidthDemand>, b: Seq<WidthDemand>, k: int)
    requires
        0 <= k <= a.len(),
        k <= b.len(),
        forall|j: int| 0 <= j < k ==> a[j] == b[j],
    ensures
        natural_width(a, k) == natural_width(b, k),
    decreases k,
{
    if k > 0 {
        lemma_natural_width_prefix(a, b, k - 1);
    }
}

/// `auto_width` of a prefix only reads the prefix.
pub proof fn lemma_auto_width_prefix(title: Seq<char>, a: Seq<Seq<char>>, b: Seq<Seq<char>>, k: int)
    requires
        0 <= k <= a.len(),
        k <= b.len(),
        forall|j: int| 0 <= j < k ==> a[j] == b[j],
    ensures
        auto_width(title, a, k) == auto_width(title, b, k),
    decreases k,
{
    if k > 0 {
        lemma_auto_width_prefix(title, a, b, k - 1);
    }
}

/// There is one width per column.
pub proof fn lemma_column_widths_len(d: Seq<WidthDemand>, available: u16)
    ensures
        column_widths(d, available).len() == d.len(),
{
    if d.len() > 0 && available > 0 {
        lemma_flex_total_bounds(d, available, d.len() as int);
        let p = first_pass(d, available, d.len() as int);
        if p.flex_total > 0 && p.remaining > 0 {
            lemma_second_pass_len(d, p, p.flex_indices.len() as int);
        }
    }
}

/// The second pass keeps one width per column.
pub proof fn lemma_second_pass_len(d: Seq<WidthDemand>, p: FirstPass, k: int)
    requires
        0 <= k <= p.flex_indices.len(),
        p.widths.len() == d.len(),
        forall|j: int| 0 <= j < p.flex_indices.len() ==> 0 <= #[trigger] p.flex_indices[j] < d.len(),
    ensures
        second_pass(d, p, k).0.len() == d.len(),
    decreases k,
{
    if k > 0 {
        lemma_second_pass_len(d, p, k - 1);
    }
}

} // verus!
