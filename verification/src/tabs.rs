//! Tabs: a bar of labelled tabs over the content of the active one, moved
//! through with the arrow keys of the bar's orientation.

use vstd::prelude::*;
use crate::code_block::{decimal_digits, digit_count};
use crate::event::{Event, EventResult, KeyCode, Widget};
use crate::handler::{Handler, ReadyHandler};
use crate::layout::{Constraints, Flex};
use crate::style::{make_style, styled, Style};
use crate::table::sat_add;
use crate::text::{decimal_text, owned, push_char, push_decimal, push_str};
use crate::theme::Theme;
use crate::widget_id::{fx_path_key_hash, WidgetId};
use crate::widget_state::{StatefulWidgetBuilder, WidgetState};
use crate::width::{str_width, text_width};

verus! {

/// How the tab bar is laid out.
#[derive(Debug, Clone, Copy, PartialEq, Eq, Structural)]
pub enum TabOrientation {
    /// Tabs left to right above the content
    Horizontal,
    /// Tabs top to bottom left of the content
    Vertical,
}

impl Default for TabOrientation {
    fn default() -> (o: Self)
        ensures
            o == TabOrientation::Horizontal,
    {
        TabOrientation::Horizontal
    }
}

/// How tabs look.
#[derive(Debug, Clone, Copy, PartialEq, Eq, Structural)]
pub enum TabVariant {
    /// An underline (or side line) under the active tab
    Line,
    /// A border round the active tab
    Enclosed,
    /// A filled background behind the active tab
    Solid,
    /// A pill-like background behind the active tab
    Pills,
    /// Only the text changes
    Minimal,
}

impl Default for TabVariant {
    fn default() -> (v: Self)
        ensures
            v == TabVariant::Line,
    {
        TabVariant::Line
    }
}

/// A mark beside a tab's label.
#[derive(Debug, Clone, PartialEq, Eq)]
pub enum TabBadge {
    /// A count, shown ` (n)`
    Count(u32),
    /// A dot, shown ` •`
    Dot,
    /// A text, shown ` [text]`
    Text(String),
}

/// The text a badge shows.
pub open spec fn badge_text(b: TabBadge) -> Seq<char> {
    match b {
        TabBadge::Count(n) => seq![' ', '('] + decimal_text(n as nat) + seq![')'],
        TabBadge::Dot => seq![' ', '•'],
        TabBadge::Text(t) => seq![' ', '['] + t@ + seq![']'],
    }
}

/// The columns a badge takes: its digits and three more for a count, two for
/// a dot, the text's width and three more for a text (at most the largest
/// `u16`).
pub open spec fn badge_width(b: TabBadge) -> u16 {
    match b {
        TabBadge::Count(n) => (3 + decimal_digits(n as nat)) as u16,
        TabBadge::Dot => 2,
        TabBadge::Text(t) => sat_add(3, (text_width(t@) % 0x10000) as u16),
    }
}

impl TabBadge {
    /// The columns the badge takes (see `badge_width`).
    pub fn width(&self) -> (w: u16)
        ensures
            w == badge_width(*self),
    {
        match self {
            TabBadge::Count(n) => {
                let len = digit_count(*n as u128);
                3 + len as u16
            },
            TabBadge::Dot => 2,
            TabBadge::Text(t) => {
                let w = (str_width(t.as_str()) % 0x10000) as u16;
                w.saturating_add(3)
            },
        }
    }

    /// The text the badge shows (see `badge_text`).
    pub fn to_string(&self) -> (s: String)
        ensures
            s@ == badge_text(*self),
    {
        let mut s = String::new();
        match self {
            TabBadge::Count(n) => {
                push_char(&mut s, ' ');
                push_char(&mut s, '(');
                push_decimal(&mut s, *n as u64);
                push_char(&mut s, ')');
                proof {
                    assert(s@ =~= badge_text(*self));
                }
            },
            TabBadge::Dot => {
                push_char(&mut s, ' ');
                push_char(&mut s, '•');
                proof {
                    assert(s@ =~= badge_text(*self));
                }
            },
            TabBadge::Text(t) => {
                push_char(&mut s, ' ');
                push_char(&mut s, '[');
                push_str(&mut s, t.as_str());
                push_char(&mut s, ']');
                proof {
                    assert(s@ =~= badge_text(*self));
                }
            },
        }
        s
    }
}

/// A tab: its label, the widget it shows, whether it is disabled and its badge.
#[verifier::reject_recursive_types(M)]
pub struct TabItem<M = ()> {
    pub label: String,
    pub content: Box<dyn Widget<M>>,
    pub disabled: bool,
    pub badge: Option<TabBadge>,
}

/// The columns a tab's label and badge take (at most the largest `u16`).
pub open spec fn tab_width<M>(t: TabItem<M>) -> u16 {
    sat_add(
        (text_width(t.label@) % 0x10000) as u16,
        match t.badge {
            Some(b) => badge_width(b),
            None => 0,
        },
    )
}

/// The text a tab shows: its label followed by its badge.
pub open spec fn tab_text<M>(t: TabItem<M>) -> Seq<char> {
    match t.badge {
        Some(b) => t.label@ + badge_text(b),
        None => t.label@,
    }
}

impl<M> TabItem<M> {
    /// Whether the tab's content, asked for its constraints, may answer a
    /// minimum of `w` by `h` (see `Widget::sized_as`).
    pub open spec fn content_sized(&self, w: u16, h: u16) -> bool {
        exists|ci: Constraints| self.content.sized_as(ci) && ci.min_width == w && ci.min_height == h
    }

    /// Whether the tab's content passes over `event` (see
    /// `Widget::passes_over`).
    pub open spec fn content_passes_over(&self, event: Event) -> bool {
        self.content.passes_over(event)
    }

    /// An enabled tab without a badge.
    pub fn new<W: Widget<M> + 'static>(label: &str, content: W) -> (t: Self)
        ensures
            t.label@ == label@,
            !t.disabled,
            t.badge.is_none(),
    {
        let c: Box<dyn Widget<M>> = Box::new(content);
        TabItem { label: owned(label), content: c, disabled: false, badge: None }
    }

    pub fn disabled(self, disabled: bool) -> (t: Self)
        ensures
            t == (TabItem { disabled, ..self }),
    {
        TabItem { disabled, ..self }
    }

    pub fn badge(self, badge: TabBadge) -> (t: Self)
        ensures
            t == (TabItem { badge: Some(badge), ..self }),
    {
        TabItem { badge: Some(badge), ..self }
    }

    /// The columns the label and badge take (see `tab_width`).
    pub fn display_width(&self) -> (w: u16)
        ensures
            w == tab_width(*self),
    {
        let lw = (str_width(self.label.as_str()) % 0x10000) as u16;
        let bw = match &self.badge {
            Some(b) => b.width(),
            None => 0,
        };
        lw.saturating_add(bw)
    }

    /// The label followed by the badge (see `tab_text`).
    pub fn label_text(&self) -> (s: String)
        ensures
            s@ == tab_text(*self),
    {
        let mut s = owned(self.label.as_str());
        if let Some(b) = &self.badge {
            let bt = b.to_string();
            push_str(&mut s, bt.as_str());
        }
        s
    }
}

/// The index of the newly chosen tab.
#[derive(Debug, Clone, PartialEq, Eq, Structural)]
pub struct TabChangeEvent {
    pub index: usize,
}

/// Which tabs are disabled.
pub open spec fn disabled_flags<M>(tabs: Seq<TabItem<M>>) -> Seq<bool> {
    Seq::new(tabs.len(), |i: int| tabs[i].disabled)
}

/// The first enabled tab among `left` tabs from `pos` onward, wrapping round.
pub open spec fn scan_forward(dis: Seq<bool>, pos: int, left: int) -> Option<int>
    decreases left,
{
    if left <= 0 || dis.len() == 0 {
        None
    } else if !dis[pos] {
        Some(pos)
    } else {
        scan_forward(dis, (pos + 1) % (dis.len() as int), left - 1)
    }
}

/// The first enabled tab among `left` tabs from `pos` backward, wrapping round.
pub open spec fn scan_backward(dis: Seq<bool>, pos: int, left: int) -> Option<int>
    decreases left,
{
    if left <= 0 || dis.len() == 0 {
        None
    } else if !dis[pos] {
        Some(pos)
    } else {
        scan_backward(
            dis,
            if pos == 0 {
                dis.len() - 1
            } else {
                pos - 1
            },
            left - 1,
        )
    }
}

/// The next enabled tab after `active`, wrapping round and stopping short of
/// `active` itself (every tab is looked at when `active` is past the last).
pub open spec fn next_tab_index(dis: Seq<bool>, active: int) -> Option<int> {
    let n = dis.len() as int;
    if n == 0 {
        None
    } else {
        scan_forward(
            dis,
            (active % n + 1) % n,
            if active < n {
                n - 1
            } else {
                n
            },
        )
    }
}

/// The previous enabled tab before `active`, wrapping round and stopping short
/// of `active` itself; none when `active` is more than one past the last.
pub open spec fn previous_tab_index(dis: Seq<bool>, active: int) -> Option<int> {
    let n = dis.len() as int;
    if n == 0 || active > n {
        None
    } else {
        scan_backward(
            dis,
            if active == 0 {
                n - 1
            } else {
                active - 1
            },
            if active < n {
                n - 1
            } else {
                n
            },
        )
    }
}

/// What the change callback gives when the tab `target` (if any) is chosen.
pub open spec fn tab_fired<M>(h: Option<Box<dyn Handler<(TabChangeEvent,), M>>>, target: Option<int>, out: Seq<M>) -> bool {
    match target {
        Some(i) => match h {
            Some(f) => out.len() == 1 && f.gives((TabChangeEvent { index: i as usize },), out[0]),
            None => out.len() == 0,
        },
        None => out.len() == 0,
    }
}

/// What a key does to tabs.
pub enum TabKey {
    Previous,
    Next,
    Forward,
}

/// Left and Right (Up and Down when vertical) choose the previous and next
/// tab; every other event goes to the active tab's content.
pub open spec fn tab_key(orientation: TabOrientation, ev: Event) -> TabKey {
    match ev {
        Event::Key(k) => match orientation {
            TabOrientation::Horizontal => match k.code {
                KeyCode::Left => TabKey::Previous,
                KeyCode::Right => TabKey::Next,
                _ => TabKey::Forward,
            },
            TabOrientation::Vertical => match k.code {
                KeyCode::Up => TabKey::Previous,
                KeyCode::Down => TabKey::Next,
                _ => TabKey::Forward,
            },
        },
        _ => TabKey::Forward,
    }
}

/// The part of a tab the bar shows.
pub struct TabHead {
    pub label: Seq<char>,
    pub disabled: bool,
    pub badge: Option<TabBadge>,
}

/// The heads of the tabs.
pub open spec fn heads<M>(tabs: Seq<TabItem<M>>) -> Seq<TabHead> {
    Seq::new(tabs.len(), |i: int| TabHead { label: tabs[i].label@, disabled: tabs[i].disabled, badge: tabs[i].badge })
}

/// The width of a horizontal bar's first `k` tabs, each padded by four
/// (saturating).
pub open spec fn padded_sum<M>(tabs: Seq<TabItem<M>>, k: int) -> u16
    decreases k,
{
    if k <= 0 {
        0
    } else {
        sat_add(padded_sum(tabs, k - 1), sat_add(tab_width(tabs[k - 1]), 4))
    }
}

/// The width of a horizontal bar: the padded tabs and a gap between each two.
pub open spec fn horizontal_bar_width<M>(tabs: Seq<TabItem<M>>) -> u16 {
    sat_add(
        padded_sum(tabs, tabs.len() as int),
        ((if tabs.len() > 0 {
            tabs.len() - 1
        } else {
            0
        }) % 0x10000) as u16,
    )
}

/// The widest of the first `k` tabs.
pub open spec fn widest_tab<M>(tabs: Seq<TabItem<M>>, k: int) -> u16
    decreases k,
{
    if k <= 0 {
        0
    } else {
        let m = widest_tab(tabs, k - 1);
        let w = tab_width(tabs[k - 1]);
        if w > m {
            w
        } else {
            m
        }
    }
}

/// The width of a vertical bar: the widest tab (ten without tabs) and four
/// (saturating).
pub open spec fn vertical_bar_width<M>(tabs: Seq<TabItem<M>>) -> u16 {
    sat_add(
        if tabs.len() == 0 {
            10
        } else {
            widest_tab(tabs, tabs.len() as int)
        },
        4,
    )
}

/// The lines a horizontal bar takes: two for the line and enclosed variants,
/// one else.
pub open spec fn bar_height(v: TabVariant) -> u16 {
    match v {
        TabVariant::Enclosed => 2,
        TabVariant::Line => 2,
        _ => 1,
    }
}

/// The style of a tab: muted when disabled or inactive; when active, the
/// primary color (bold while focused) for the line and minimal variants, the
/// text on the primary color, bold, for the others.
pub open spec fn tab_style_of(disabled: bool, active: bool, focused: bool, v: TabVariant, theme: Theme) -> Style {
    let c = theme.colors;
    if disabled || !active {
        styled(Some(c.text_muted), Some(c.background), false)
    } else {
        match v {
            TabVariant::Line | TabVariant::Minimal => styled(Some(c.primary), Some(c.background), focused),
            _ => styled(Some(c.text), Some(c.primary), true),
        }
    }
}

/// The tab `k` places after `pos`, wrapping round `n` tabs.
pub open spec fn ahead(pos: int, k: int, n: int) -> int {
    (pos + k) % n
}

/// A forward scan finds an enabled tab among the ones it looks at.
pub proof fn lemma_scan_forward_found(dis: Seq<bool>, pos: int, left: int, i: int)
    requires
        0 <= pos < dis.len(),
        scan_forward(dis, pos, left) == Some(i),
    ensures
        0 <= i < dis.len(),
        !dis[i],
        exists|k: int| 0 <= k < left && i == #[trigger] ahead(pos, k, dis.len() as int),
    decreases left,
{
    let n = dis.len() as int;
    if !dis[pos] {
        assert(pos == ahead(pos, 0, n)) by {
            vstd::arithmetic::div_mod::lemma_small_mod(pos as nat, n as nat);
        }
    } else {
        let next = (pos + 1) % n;
        lemma_scan_forward_found(dis, next, left - 1, i);
        let k = choose|k: int| 0 <= k < left - 1 && i == #[trigger] ahead(next, k, n);
        assert(i == ahead(pos, k + 1, n)) by {
            vstd::arithmetic::div_mod::lemma_add_mod_noop(next, k, n);
            vstd::arithmetic::div_mod::lemma_mod_twice(pos + 1, n);
            vstd::arithmetic::div_mod::lemma_add_mod_noop(pos + 1, k, n);
        }
    }
}

/// Choosing the next tab (Right, or Down when vertical) lands on an enabled
/// tab other than the active one.
pub proof fn law_next_tab_enabled(dis: Seq<bool>, active: int)
    requires
        0 <= active,
    ensures
        next_tab_index(dis, active) matches Some(i) ==> 0 <= i < dis.len() && !dis[i] && i != active,
{
    let n = dis.len() as int;
    if let Some(i) = next_tab_index(dis, active) {
        let pos = (active % n + 1) % n;
        let left = if active < n {
            n - 1
        } else {
            n
        };
        lemma_scan_forward_found(dis, pos, left, i);
        if active < n {
            let k = choose|k: int| 0 <= k < left && i == #[trigger] ahead(pos, k, n);
            assert(active % n == active) by {
                vstd::arithmetic::div_mod::lemma_small_mod(active as nat, n as nat);
            }
            assert(i == (active + 1 + k) % n) by {
                vstd::arithmetic::div_mod::lemma_add_mod_noop(active + 1, k, n);
                vstd::arithmetic::div_mod::lemma_mod_twice(active + 1, n);
                vstd::arithmetic::div_mod::lemma_small_mod(k as nat, n as nat);
                vstd::arithmetic::div_mod::lemma_add_mod_noop(active % n, 1, n);
                vstd::arithmetic::div_mod::lemma_small_mod(1, n as nat);
            }
            let x = active + 1 + k;
            if x < n {
                vstd::arithmetic::div_mod::lemma_small_mod(x as nat, n as nat);
            } else {
                vstd::arithmetic::div_mod::lemma_small_mod((x - n) as nat, n as nat);
                vstd::arithmetic::div_mod::lemma_mod_add_multiples_vanish(x - n, n);
            }
        }
    }
}

/// A backward scan finds an enabled tab.
pub proof fn lemma_scan_backward_found(dis: Seq<bool>, pos: int, left: int, i: int)
    requires
        0 <= pos < dis.len(),
        scan_backward(dis, pos, left) == Some(i),
    ensures
        0 <= i < dis.len(),
        !dis[i],
    decreases left,
{
    if dis[pos] {
        let prev = if pos == 0 {
            dis.len() - 1
        } else {
            pos - 1
        };
        lemma_scan_backward_found(dis, prev, left - 1, i);
    }
}

/// Choosing the previous tab (Left, or Up when vertical) lands on an enabled
/// tab.
pub proof fn law_previous_tab_enabled(dis: Seq<bool>, active: int)
    requires
        0 <= active,
    ensures
        previous_tab_index(dis, active) matches Some(i) ==> 0 <= i < dis.len() && !dis[i],
{
    let n = dis.len() as int;
    if let Some(i) = previous_tab_index(dis, active) {
        let pos = if active == 0 {
            n - 1
        } else {
            active - 1
        };
        let left = if active < n {
            n - 1
        } else {
            n
        };
        lemma_scan_backward_found(dis, pos, left, i);
    }
}

/// The tab `k` places before `pos`, wrapping round `n` tabs.
pub open spec fn behind(pos: int, k: int, n: int) -> int {
    (pos - k) % n
}

/// A backward scan of `left` tabs from `pos` stops at the first enabled tab it
/// meets, `m` places back, every tab before it in the scan being disabled; when
/// it finds none, all `left` tabs it looked at are disabled.
proof fn lemma_scan_backward_first(dis: Seq<bool>, pos: int, left: int)
    requires
        0 <= pos < dis.len(),
    ensures
        scan_backward(dis, pos, left) matches Some(i) ==> exists|m: int|
            0 <= m < left && i == #[trigger] behind(pos, m, dis.len() as int) && forall|q: int|
                0 <= q < m ==> dis[#[trigger] behind(pos, q, dis.len() as int)],
        scan_backward(dis, pos, left) is None ==> forall|q: int| 0 <= q < left ==> dis[#[trigger] behind(pos, q, dis.len() as int)],
    decreases left,
{
    let n = dis.len() as int;
    assert(behind(pos, 0, n) == pos) by {
        vstd::arithmetic::div_mod::lemma_small_mod(pos as nat, n as nat);
    }
    if left > 0 && dis[pos] {
        let prev = if pos == 0 { n - 1 } else { pos - 1 };
        lemma_scan_backward_first(dis, prev, left - 1);
        assert forall|q: int| #[trigger] behind(prev, q, n) == behind(pos, q + 1, n) by {
            if pos == 0 {
                vstd::arithmetic::div_mod::lemma_mod_add_multiples_vanish(-1 - q, n);
            }
        }
        if let Some(i) = scan_backward(dis, pos, left) {
            let m = choose|m: int| 0 <= m < left - 1 && i == #[trigger] behind(prev, m, n) && forall|q: int|
                0 <= q < m ==> dis[#[trigger] behind(prev, q, n)];
            assert(i == behind(pos, m + 1, n));
            assert forall|q: int| 0 <= q < m + 1 implies dis[#[trigger] behind(pos, q, n)] by {
                if q > 0 {
                    assert(behind(prev, q - 1, n) == behind(pos, q, n));
                }
            }
        } else {
            assert forall|q: int| 0 <= q < left implies dis[#[trigger] behind(pos, q, n)] by {
                if q > 0 {
                    assert(behind(prev, q - 1, n) == behind(pos, q, n));
                }
            }
        }
    }
}

/// A forward scan of `left` tabs from `pos` stops at the first enabled tab it
/// meets, every tab before it in the scan being disabled; when it finds none,
/// all `left` tabs it looked at are disabled.
proof fn lemma_scan_forward_first(dis: Seq<bool>, pos: int, left: int)
    requires
        0 <= pos < dis.len(),
    ensures
        scan_forward(dis, pos, left) matches Some(i) ==> exists|m: int|
            0 <= m < left && i == #[trigger] ahead(pos, m, dis.len() as int) && forall|q: int|
                0 <= q < m ==> dis[#[trigger] ahead(pos, q, dis.len() as int)],
        scan_forward(dis, pos, left) is None ==> forall|q: int| 0 <= q < left ==> dis[#[trigger] ahead(pos, q, dis.len() as int)],
    decreases left,
{
    let n = dis.len() as int;
    assert(ahead(pos, 0, n) == pos) by {
        vstd::arithmetic::div_mod::lemma_small_mod(pos as nat, n as nat);
    }
    if left > 0 && dis[pos] {
        let next = (pos + 1) % n;
        assert(0 <= next < n);
        lemma_scan_forward_first(dis, next, left - 1);
        assert forall|q: int| #[trigger] ahead(next, q, n) == ahead(pos, q + 1, n) by {
            vstd::arithmetic::div_mod::lemma_add_mod_noop(pos + 1, q, n);
            vstd::arithmetic::div_mod::lemma_mod_twice(pos + 1, n);
            vstd::arithmetic::div_mod::lemma_add_mod_noop(next, q, n);
        }
        if let Some(i) = scan_forward(dis, pos, left) {
            let m = choose|m: int| 0 <= m < left - 1 && i == #[trigger] ahead(next, m, n) && forall|q: int|
                0 <= q < m ==> dis[#[trigger] ahead(next, q, n)];
            assert(i == ahead(pos, m + 1, n));
            assert forall|q: int| 0 <= q < m + 1 implies dis[#[trigger] ahead(pos, q, n)] by {
                if q > 0 {
                    assert(ahead(next, q - 1, n) == ahead(pos, q, n));
                }
            }
        } else {
            assert forall|q: int| 0 <= q < left implies dis[#[trigger] ahead(pos, q, n)] by {
                if q > 0 {
                    assert(ahead(next, q - 1, n) == ahead(pos, q, n));
                }
            }
        }
    }
}

/// Choosing the previous tab (Left, or Up when vertical) from an active tab
/// lands on the first enabled tab met going back from it, wrapping round: it
/// lies `d` places back (one at least, short of a full turn), and every tab
/// passed on the way is disabled; it is chosen whenever some other tab is
/// enabled. With every tab enabled, it is the tab just before the active one.
pub proof fn law_previous_tab_is_nearest(dis: Seq<bool>, active: int)
    requires
        0 <= active < dis.len(),
    ensures
        ({
            let n = dis.len() as int;
            &&& previous_tab_index(dis, active) matches Some(i) ==> exists|d: int|
                1 <= d < n && i == #[trigger] behind(active, d, n) && forall|k: int|
                    1 <= k < d ==> dis[#[trigger] behind(active, k, n)]
            &&& previous_tab_index(dis, active) is None ==> forall|k: int| 1 <= k < n ==> dis[#[trigger] behind(active, k, n)]
            &&& ((forall|j: int| 0 <= j < n ==> !dis[j]) && active > 0) ==> previous_tab_index(dis, active) == Some(active - 1)
        }),
{
    let n = dis.len() as int;
    let pos = if active == 0 { n - 1 } else { active - 1 };
    assert(pos == behind(active, 1, n)) by {
        if active == 0 {
            vstd::arithmetic::div_mod::lemma_mod_add_multiples_vanish(-1, n);
            vstd::arithmetic::div_mod::lemma_small_mod((n - 1) as nat, n as nat);
        } else {
            vstd::arithmetic::div_mod::lemma_small_mod((active - 1) as nat, n as nat);
        }
    }
    lemma_scan_backward_first(dis, pos, n - 1);
    assert forall|q: int| #[trigger] behind(pos, q, n) == behind(active, q + 1, n) by {
        if active == 0 {
            vstd::arithmetic::div_mod::lemma_mod_add_multiples_vanish(-1 - q, n);
        }
    }
    if let Some(i) = previous_tab_index(dis, active) {
        let m = choose|m: int| 0 <= m < n - 1 && i == #[trigger] behind(pos, m, n) && forall|q: int|
            0 <= q < m ==> dis[#[trigger] behind(pos, q, n)];
        assert(i == behind(active, m + 1, n));
        assert forall|k: int| 1 <= k < m + 1 implies dis[#[trigger] behind(active, k, n)] by {
            assert(behind(pos, k - 1, n) == behind(active, k, n));
        }
        if (forall|j: int| 0 <= j < n ==> !dis[j]) && active > 0 {
            if m > 0 {
                assert(dis[behind(pos, 0, n)]);
                assert(0 <= behind(pos, 0, n) < n);
            }
            assert(i == pos);
        }
    } else {
        assert forall|k: int| 1 <= k < n implies dis[#[trigger] behind(active, k, n)] by {
            assert(behind(pos, k - 1, n) == behind(active, k, n));
        }
        if (forall|j: int| 0 <= j < n ==> !dis[j]) && active > 0 {
            assert(dis[behind(pos, 0, n)]);
            assert(0 <= behind(pos, 0, n) < n);
        }
    }
}

/// Choosing the next tab (Right, or Down when vertical) from an active tab
/// lands on the first enabled tab met going on from it, wrapping round: it
/// lies `d` places on (one at least, short of a full turn), and every tab
/// passed on the way is disabled; it is chosen whenever some other tab is
/// enabled. With every tab enabled, it is the tab just after the active one
/// (the first after the last).
pub proof fn law_next_tab_is_nearest(dis: Seq<bool>, active: int)
    requires
        0 <= active < dis.len(),
    ensures
        ({
            let n = dis.len() as int;
            &&& next_tab_index(dis, active) matches Some(i) ==> exists|d: int|
                1 <= d < n && i == #[trigger] ahead(active, d, n) && forall|k: int|
                    1 <= k < d ==> dis[#[trigger] ahead(active, k, n)]
            &&& next_tab_index(dis, active) is None ==> forall|k: int| 1 <= k < n ==> dis[#[trigger] ahead(active, k, n)]
            &&& ((forall|j: int| 0 <= j < n ==> !dis[j]) && n > 1) ==> next_tab_index(dis, active) == Some((active + 1) % n)
        }),
{
    let n = dis.len() as int;
    let pos = (active % n + 1) % n;
    assert(active % n == active) by {
        vstd::arithmetic::div_mod::lemma_small_mod(active as nat, n as nat);
    }
    assert(pos == ahead(active, 1, n));
    lemma_scan_forward_first(dis, pos, n - 1);
    assert forall|q: int| #[trigger] ahead(pos, q, n) == ahead(active, q + 1, n) by {
        vstd::arithmetic::div_mod::lemma_add_mod_noop(active + 1, q, n);
        vstd::arithmetic::div_mod::lemma_mod_twice(active + 1, n);
        vstd::arithmetic::div_mod::lemma_add_mod_noop(pos, q, n);
    }
    if let Some(i) = next_tab_index(dis, active) {
        let m = choose|m: int| 0 <= m < n - 1 && i == #[trigger] ahead(pos, m, n) && forall|q: int|
            0 <= q < m ==> dis[#[trigger] ahead(pos, q, n)];
        assert(i == ahead(active, m + 1, n));
        assert forall|k: int| 1 <= k < m + 1 implies dis[#[trigger] ahead(active, k, n)] by {
            assert(ahead(pos, k - 1, n) == ahead(active, k, n));
        }
        if (forall|j: int| 0 <= j < n ==> !dis[j]) && n > 1 {
            if m > 0 {
                assert(dis[ahead(pos, 0, n)]);
                assert(0 <= ahead(pos, 0, n) < n);
            }
            assert(i == pos);
        }
    } else {
        assert forall|k: int| 1 <= k < n implies dis[#[trigger] ahead(active, k, n)] by {
            assert(ahead(pos, k - 1, n) == ahead(active, k, n));
        }
        if (forall|j: int| 0 <= j < n ==> !dis[j]) && n > 1 {
            assert(dis[ahead(pos, 0, n)]);
            assert(0 <= ahead(pos, 0, n) < n);
        }
    }
}

/// Tabs over the contents of the active one, reporting a chosen tab as `M`.
#[verifier::reject_recursive_types(M)]
pub struct Tabs<M = ()> {
    tabs: Vec<TabItem<M>>,
    active_index: usize,
    variant: TabVariant,
    orientation: TabOrientation,
    state: WidgetState,
    on_change: ReadyHandler<(TabChangeEvent,), M>,
}

impl<M> Tabs<M> {
    pub closed spec fn items(&self) -> Seq<TabItem<M>> {
        self.tabs@
    }

    pub closed spec fn active_tab(&self) -> usize {
        self.active_index
    }

    pub closed spec fn tab_variant(&self) -> TabVariant {
        self.variant
    }

    pub closed spec fn tab_orientation(&self) -> TabOrientation {
        self.orientation
    }

    pub closed spec fn widget_state(&self) -> WidgetState {
        self.state
    }

    pub closed spec fn change_handler(&self) -> Option<Box<dyn Handler<(TabChangeEvent,), M>>> {
        self.on_change.handler()
    }

    /// Everything but the tabs' contents as in `other`.
    pub open spec fn same_bar(&self, other: &Self) -> bool {
        &&& heads(self.items()) == heads(other.items())
        &&& self.active_tab() == other.active_tab()
        &&& self.tab_variant() == other.tab_variant()
        &&& self.tab_orientation() == other.tab_orientation()
        &&& self.change_handler() == other.change_handler()
    }

    /// `c` holds the tabs' size around active content of minimum size `cw` by
    /// `ch` (10 by 1 when there is none): horizontal, as wide as the bar or the
    /// content and as high as both; vertical, as wide as both and as high as
    /// the bar (at least three lines) or the content.
    pub open spec fn sized_around(&self, c: Constraints, cw: u16, ch: u16) -> bool {
        &&& self.active_tab() >= self.items().len() ==> cw == 10 && ch == 1
        &&& match self.tab_orientation() {
            TabOrientation::Horizontal => {
                let bw = horizontal_bar_width(self.items());
                c.min_width == (if bw > cw {
                    bw
                } else {
                    cw
                }) && c.min_height == sat_add(bar_height(self.tab_variant()), ch)
            },
            TabOrientation::Vertical => {
                let bh = ((if self.items().len() > 3 {
                    self.items().len()
                } else {
                    3
                }) % 0x10000) as u16;
                c.min_width == sat_add(vertical_bar_width(self.items()), cw) && c.min_height == (if bh > ch {
                    bh
                } else {
                    ch
                })
            },
        }
    }

    /// Tabs without any tab: the first active, line variant, horizontal.
    pub fn new() -> (t: Self)
        ensures
            t.items().len() == 0,
            t.active_tab() == 0,
            t.tab_variant() == TabVariant::Line,
            t.tab_orientation() == TabOrientation::Horizontal,
            t.widget_state() == (WidgetState { focused: false, disabled: false, custom_style: None, custom_focus_style: None }),
            t.change_handler().is_none(),
    {
        Tabs {
            tabs: Vec::new(),
            active_index: 0,
            variant: TabVariant::Line,
            orientation: TabOrientation::Horizontal,
            state: WidgetState::new(),
            on_change: ReadyHandler::none(),
        }
    }

    /// Appends a tab.
    pub fn tab(self, item: TabItem<M>) -> (t: Self)
        ensures
            t.items() == self.items().push(item),
            t.active_tab() == self.active_tab(),
            t.tab_variant() == self.tab_variant(),
            t.tab_orientation() == self.tab_orientation(),
            t.widget_state() == self.widget_state(),
            t.change_handler() == self.change_handler(),
    {
        let mut tabs = self.tabs;
        tabs.push(item);
        Tabs { tabs, ..self }
    }

    pub fn variant(self, variant: TabVariant) -> (t: Self)
        ensures
            t.tab_variant() == variant,
            t.items() == self.items() && t.active_tab() == self.active_tab(),
            t.tab_orientation() == self.tab_orientation() && t.widget_state() == self.widget_state(),
            t.change_handler() == self.change_handler(),
    {
        Tabs { variant, ..self }
    }

    pub fn orientation(self, orientation: TabOrientation) -> (t: Self)
        ensures
            t.tab_orientation() == orientation,
            t.items() == self.items() && t.active_tab() == self.active_tab(),
            t.tab_variant() == self.tab_variant() && t.widget_state() == self.widget_state(),
            t.change_handler() == self.change_handler(),
    {
        Tabs { orientation, ..self }
    }

    /// Makes tab `index` the active one; any index is kept, also one past the
    /// tabs added so far.
    pub fn active(self, index: usize) -> (t: Self)
        ensures
            t.active_tab() == index,
            t.items() == self.items() && t.tab_variant() == self.tab_variant(),
            t.tab_orientation() == self.tab_orientation() && t.widget_state() == self.widget_state(),
            t.change_handler() == self.change_handler(),
    {
        Tabs { active_index: index, ..self }
    }

    /// Sets the disabled flag.
    pub fn disabled(self, disabled: bool) -> (t: Self)
        ensures
            t.widget_state() == (WidgetState { disabled, ..self.widget_state() }),
            t.items() == self.items() && t.active_tab() == self.active_tab(),
            t.tab_variant() == self.tab_variant() && t.tab_orientation() == self.tab_orientation(),
            t.change_handler() == self.change_handler(),
    {
        let state = WidgetState { disabled, ..self.state };
        Tabs { state, ..self }
    }

    /// Sets the custom style.
    pub fn style(self, style: Style) -> (t: Self)
        ensures
            t.widget_state() == (WidgetState { custom_style: Some(style), ..self.widget_state() }),
            t.items() == self.items() && t.active_tab() == self.active_tab(),
            t.tab_variant() == self.tab_variant() && t.tab_orientation() == self.tab_orientation(),
            t.change_handler() == self.change_handler(),
    {
        let state = WidgetState { custom_style: Some(style), ..self.state };
        Tabs { state, ..self }
    }

    /// Sets the custom focus style.
    pub fn focus_style(self, style: Style) -> (t: Self)
        ensures
            t.widget_state() == (WidgetState { custom_focus_style: Some(style), ..self.widget_state() }),
            t.items() == self.items() && t.active_tab() == self.active_tab(),
            t.tab_variant() == self.tab_variant() && t.tab_orientation() == self.tab_orientation(),
            t.change_handler() == self.change_handler(),
    {
        let state = WidgetState { custom_focus_style: Some(style), ..self.state };
        Tabs { state, ..self }
    }

    /// Sets the callback called with each chosen tab.
    pub fn on_change<F: Fn(TabChangeEvent) -> M + 'static>(self, handler: F) -> (t: Self)
        requires
            forall|a: (TabChangeEvent,)| call_requires(handler, a),
        ensures
            t.change_handler().is_some(),
            forall|a: (TabChangeEvent,), m: M| t.change_handler().unwrap().gives(a, m) == call_ensures(handler, a, m),
            t.items() == self.items() && t.active_tab() == self.active_tab(),
            t.tab_variant() == self.tab_variant() && t.tab_orientation() == self.tab_orientation(),
            t.widget_state() == self.widget_state(),
    {
        Tabs {
            tabs: self.tabs,
            active_index: self.active_index,
            variant: self.variant,
            orientation: self.orientation,
            state: self.state,
            on_change: ReadyHandler::from_fn(handler),
        }
    }

    /// The callback's message for choosing tab `index`.
    fn emit_change(&self, index: usize) -> (out: Vec<M>)
        ensures
            tab_fired(self.change_handler(), Some(index as int), out@),
    {
        self.on_change.fire((TabChangeEvent { index },))
    }

    /// The message for the next enabled tab (see `next_tab_index`); the active
    /// tab itself does not change.
    pub fn next_tab(&self) -> (out: Vec<M>)
        ensures
            tab_fired(self.change_handler(), next_tab_index(disabled_flags(self.items()), self.active_tab() as int), out@),
    {
        let ghost dis = disabled_flags(self.tabs@);
        let n = self.tabs.len();
        if n == 0 {
            return Vec::new();
        }
        let start = self.active_index;
        let left: usize = if start < n {
            n - 1
        } else {
            n
        };
        let mut pos: usize = (start % n + 1) % n;
        let mut k: usize = 0;
        while k < left
            invariant
                dis == disabled_flags(self.tabs@),
                start == self.active_index,
                n == self.tabs@.len(),
                n > 0,
                pos < n,
                k <= left,
                scan_forward(dis, pos as int, (left - k) as int) == next_tab_index(dis, start as int),
            decreases left - k,
        {
            proof {
                assert(dis[pos as int] == self.tabs@[pos as int].disabled);
            }
            if !self.tabs[pos].disabled {
                proof {
                    assert(scan_forward(dis, pos as int, (left - k) as int) == Some(pos as int));
                }
                return self.emit_change(pos);
            }
            pos = (pos + 1) % n;
            k = k + 1;
        }
        Vec::new()
    }

    /// The message for the previous enabled tab (see `previous_tab_index`); the
    /// active tab itself does not change.
    pub fn previous_tab(&self) -> (out: Vec<M>)
        ensures
            tab_fired(self.change_handler(), previous_tab_index(disabled_flags(self.items()), self.active_tab() as int), out@),
    {
        let ghost dis = disabled_flags(self.tabs@);
        let n = self.tabs.len();
        let start = self.active_index;
        if n == 0 || start > n {
            return Vec::new();
        }
        let left: usize = if start < n {
            n - 1
        } else {
            n
        };
        let mut pos: usize = if start == 0 {
            n - 1
        } else {
            start - 1
        };
        let mut k: usize = 0;
        while k < left
            invariant
                dis == disabled_flags(self.tabs@),
                start == self.active_index,
                n == self.tabs@.len(),
                n > 0,
                pos < n,
                k <= left,
                scan_backward(dis, pos as int, (left - k) as int) == previous_tab_index(dis, start as int),
            decreases left - k,
        {
            proof {
                assert(dis[pos as int] == self.tabs@[pos as int].disabled);
            }
            if !self.tabs[pos].disabled {
                proof {
                    assert(scan_backward(dis, pos as int, (left - k) as int) == Some(pos as int));
                }
                return self.emit_change(pos);
            }
            pos = if pos == 0 {
                n - 1
            } else {
                pos - 1
            };
            k = k + 1;
        }
        Vec::new()
    }

    /// The lines of a horizontal bar (see `bar_height`).
    pub fn tab_bar_height(&self) -> (h: u16)
        ensures
            h == bar_height(self.tab_variant()),
    {
        match self.variant {
            TabVariant::Enclosed => 2,
            TabVariant::Line => 2,
            _ => 1,
        }
    }

    /// The columns of a vertical bar (see `vertical_bar_width`).
    pub fn tab_bar_width(&self) -> (w: u16)
        ensures
            w == vertical_bar_width(self.items()),
    {
        let n = self.tabs.len();
        if n == 0 {
            return 14;
        }
        let mut m: u16 = 0;
        let mut i: usize = 0;
        while i < n
            invariant
                n == self.tabs@.len(),
                i <= n,
                m == widest_tab(self.tabs@, i as int),
            decreases n - i,
        {
            let w = self.tabs[i].display_width();
            if w > m {
                m = w;
            }
            i = i + 1;
        }
        m.saturating_add(4)
    }

    /// The columns of a horizontal bar (see `horizontal_bar_width`).
    pub fn horizontal_width(&self) -> (w: u16)
        ensures
            w == horizontal_bar_width(self.items()),
    {
        let n = self.tabs.len();
        let mut total: u16 = 0;
        let mut i: usize = 0;
        while i < n
            invariant
                n == self.tabs@.len(),
                i <= n,
                total == padded_sum(self.tabs@, i as int),
            decreases n - i,
        {
            let w = self.tabs[i].display_width();
            total = total.saturating_add(w.saturating_add(4));
            i = i + 1;
        }
        let gaps: usize = if n > 0 {
            n - 1
        } else {
            0
        };
        total.saturating_add((gaps % 0x10000) as u16)
    }

    /// The style tab `index` is drawn with under `theme` (see `tab_style_of`).
    pub fn tab_style(&self, index: usize, theme: &Theme) -> (s: Style)
        requires
            index < self.items().len(),
        ensures
            s == tab_style_of(
                self.items()[index as int].disabled,
                index == self.active_tab(),
                self.widget_state().focused,
                self.tab_variant(),
                *theme,
            ),
    {
        let c = &theme.colors;
        if self.tabs[index].disabled || index != self.active_index {
            make_style(Some(c.text_muted), Some(c.background), false)
        } else {
            match self.variant {
                TabVariant::Line | TabVariant::Minimal => make_style(Some(c.primary), Some(c.background), self.state.focused),
                _ => make_style(Some(c.text), Some(c.primary), true),
            }
        }
    }

    /// Hands `event` to the active tab's content, if there is one.
    fn forward(&mut self, event: &Event) -> (r: EventResult<M>)
        ensures
            final(self).same_bar(old(self)),
            final(self).widget_state() == old(self).widget_state(),
            old(self).active_tab() >= old(self).items().len() ==> r is Ignored && *final(self) == *old(self),
            (old(self).active_tab() < old(self).items().len() && old(self).items()[old(self).active_tab() as int].content_passes_over(*event)) ==> r is Ignored,
    {
        let i = self.active_index;
        if i >= self.tabs.len() {
            return EventResult::Ignored;
        }
        let mut tabs: Vec<TabItem<M>> = Vec::new();
        std::mem::swap(&mut tabs, &mut self.tabs);
        let ghost before = tabs@;
        let mut tab = tabs.remove(i);
        let r = tab.content.handle_event(event);
        tabs.insert(i, tab);
        proof {
            assert(heads(tabs@) =~= heads(before));
        }
        self.tabs = tabs;
        r
    }
}

/// The state builders that come with the kept `WidgetState` (the inherent
/// `disabled`, `style` and `focus_style` say more: nothing else changes).
impl<M> StatefulWidgetBuilder for Tabs<M> {
    open spec fn builder_state(&self) -> WidgetState {
        self.widget_state()
    }

    fn widget_state_mut(&mut self) -> (s: &mut WidgetState) {
        &mut self.state
    }
}

impl<M> Widget<M> for Tabs<M> {
    open spec fn can_focus(&self) -> bool {
        !self.widget_state().disabled
    }

    open spec fn focus_flag(&self) -> bool {
        self.widget_state().focused
    }

    open spec fn keeps_focus(&self) -> bool {
        true
    }

    /// Disabled tabs, and an event that is no arrow key of the bar and that the
    /// active tab's content passes over (or that finds no active tab).
    open spec fn passes_over(&self, event: Event) -> bool {
        ||| self.widget_state().disabled
        ||| tab_key(self.tab_orientation(), event) is Forward && (self.active_tab() >= self.items().len()
            || self.items()[self.active_tab() as int].content_passes_over(event))
    }

    /// Disabled tabs ignore everything; the bar's arrow keys are consumed and
    /// give the message for the previous or next enabled tab; every other event
    /// goes to the active tab's content.
    fn handle_event(&mut self, event: &Event) -> (r: EventResult<M>)
        ensures
            final(self).same_bar(old(self)),
            final(self).widget_state() == old(self).widget_state(),
            old(self).widget_state().disabled ==> r is Ignored && *final(self) == *old(self),
            !old(self).widget_state().disabled ==> match tab_key(old(self).tab_orientation(), *event) {
                TabKey::Previous => *final(self) == *old(self) && (r matches EventResult::Consumed(v) && tab_fired(
                    old(self).change_handler(),
                    previous_tab_index(disabled_flags(old(self).items()), old(self).active_tab() as int),
                    v@,
                )),
                TabKey::Next => *final(self) == *old(self) && (r matches EventResult::Consumed(v) && tab_fired(
                    old(self).change_handler(),
                    next_tab_index(disabled_flags(old(self).items()), old(self).active_tab() as int),
                    v@,
                )),
                TabKey::Forward => {
                    &&& old(self).active_tab() >= old(self).items().len() ==> r is Ignored && *final(self) == *old(self)
                    &&& (old(self).active_tab() < old(self).items().len() && old(self).items()[old(self).active_tab() as int].content_passes_over(*event)) ==> r is Ignored
                },
            },
    {
        if self.state.disabled {
            return EventResult::Ignored;
        }
        let key = match event {
            Event::Key(k) => match self.orientation {
                TabOrientation::Horizontal => match k.code {
                    KeyCode::Left => 1u8,
                    KeyCode::Right => 2u8,
                    _ => 0u8,
                },
                TabOrientation::Vertical => match k.code {
                    KeyCode::Up => 1u8,
                    KeyCode::Down => 2u8,
                    _ => 0u8,
                },
            },
            _ => 0u8,
        };
        if key == 1 {
            EventResult::Consumed(self.previous_tab())
        } else if key == 2 {
            EventResult::Consumed(self.next_tab())
        } else {
            self.forward(event)
        }
    }

    /// Horizontal: as wide as the bar or the active content, as high as the bar
    /// and the content; vertical: the bar's width and the content's, as high as
    /// the bar (at least three lines) or the content. Without an active content
    /// it counts as 10 by 1. Both grow with factor one.
    fn constraints(&self) -> (c: Constraints)
        ensures
            c.max_width.is_none() && c.max_height.is_none(),
            c@.flex == Some(seq!['1', '.', '0']),
            exists|cw: u16, ch: u16| self.sized_around(c, cw, ch) && (self.active_tab() < self.items().len()
                ==> self.items()[self.active_tab() as int].content_sized(cw, ch)),
    {
        let (cw, ch) = if self.active_index < self.tabs.len() {
            let inner = self.tabs[self.active_index].content.constraints();
            (inner.min_width, inner.min_height)
        } else {
            (10u16, 1u16)
        };
        let (min_width, min_height) = match self.orientation {
            TabOrientation::Horizontal => {
                let bw = self.horizontal_width();
                let bh = self.tab_bar_height();
                (if bw > cw {
                    bw
                } else {
                    cw
                }, bh.saturating_add(ch))
            },
            TabOrientation::Vertical => {
                let bw = self.tab_bar_width();
                let n = self.tabs.len();
                let bh = ((if n > 3 {
                    n
                } else {
                    3
                }) % 0x10000) as u16;
                (bw.saturating_add(cw), if bh > ch {
                    bh
                } else {
                    ch
                })
            },
        };
        let c = Constraints { min_width, max_width: None, min_height, max_height: None, flex: Some(Flex::one()) };
        proof {
            assert(self.sized_around(c, cw, ch));
        }
        c
    }

    /// Tabs take focus unless disabled.
    fn focusable(&self) -> (b: bool)
        ensures
            b == !self.widget_state().disabled,
    {
        self.state.is_focusable()
    }

    fn is_focused(&self) -> (b: bool)
        ensures
            b == self.widget_state().focused,
    {
        self.state.is_focused()
    }

    fn set_focused(&mut self, focused: bool)
        ensures
            final(self).widget_state() == (WidgetState { focused, ..old(self).widget_state() }),
            final(self).items() == old(self).items(),
            final(self).same_bar(old(self)),
    {
        let mut st = self.state;
        st.set_focused(focused);
        self.state = st;
    }

    /// The tabs' own identifier at `current_path` when they take focus, then the
    /// focus chain of the active tab's content, found at `current_path`
    /// followed by the active index.
    fn build_focus_chain_recursive(&self, current_path: &mut Vec<usize>, chain: &mut Vec<WidgetId>)
        ensures
            self.active_tab() >= self.items().len() ==> final(current_path)@ == old(current_path)@ && if !self.widget_state().disabled {
                final(chain)@.len() == old(chain)@.len() + 1 && final(chain)@.drop_last() == old(chain)@
                    && final(chain)@.last().value() == fx_path_key_hash(old(current_path)@, None)
            } else {
                final(chain)@ == old(chain)@
            },
    {
        if self.state.is_focusable() {
            let id = WidgetId::from_path(current_path.as_slice());
            chain.push(id);
        }
        if self.active_index < self.tabs.len() {
            current_path.push(self.active_index);
            self.tabs[self.active_index].content.build_focus_chain_recursive(current_path, chain);
            current_path.pop();
        }
    }

    /// Updates the focus of the active tab's content.
    fn update_focus_states_recursive(&mut self, current_path: &[usize], focus_id: Option<WidgetId>)
        ensures
            final(self).same_bar(old(self)),
            final(self).widget_state() == old(self).widget_state(),
    {
        let i = self.active_index;
        if i >= self.tabs.len() {
            return;
        }
        let mut tabs: Vec<TabItem<M>> = Vec::new();
        std::mem::swap(&mut tabs, &mut self.tabs);
        let ghost before = tabs@;
        let mut tab = tabs.remove(i);
        tab.content.update_focus_states_recursive(current_path, focus_id);
        tabs.insert(i, tab);
        proof {
            assert(heads(tabs@) =~= heads(before));
        }
        self.tabs = tabs;
    }
}

impl<M> Default for Tabs<M> {
    fn default() -> (t: Self)
        ensures
            t.items().len() == 0 && t.active_tab() == 0,
            t.change_handler().is_none(),
    {
        Tabs::new()
    }
}

/// Tabs without any tab (see `Tabs::new`).
pub fn tabs<M>() -> (t: Tabs<M>)
    ensures
        t.items().len() == 0 && t.active_tab() == 0,
        t.tab_variant() == TabVariant::Line,
        t.tab_orientation() == TabOrientation::Horizontal,
        t.change_handler().is_none(),
{
    Tabs::new()
}

/// How a tab of the horizontal bar is drawn.
#[derive(Debug, Clone, Copy)]
pub enum TabLook {
    /// The label with a space each side, on the first line.
    Padded,
    /// The padded label, with `count` upper bars under it in `style`.
    Underlined { count: u16, style: Style },
    /// A box: corners and a line across the first line, the label two columns
    /// in on the second, between side bars.
    Boxed,
    /// The tab's width filled with spaces, the label two columns in.
    Filled,
}

/// What is drawn for one tab of the horizontal bar.
pub struct TabCellView {
    pub x: u16,
    pub width: u16,
    pub style: Style,
    pub label: Seq<char>,
    pub look: TabLook,
}

/// A drawn tab of the horizontal bar: where it starts, how wide it is (its
/// label and badge plus four), its style, its label with the badge, and its
/// look.
pub struct TabCell {
    pub x: u16,
    pub width: u16,
    pub style: Style,
    pub label: String,
    pub look: TabLook,
}

impl TabCell {
    pub open spec fn view(&self) -> TabCellView {
        TabCellView { x: self.x, width: self.width, style: self.style, label: self.label@, look: self.look }
    }
}

/// How tab `t` (`active` or not) is drawn at column `x`, `w` wide: in
/// `tab_style_of`; a line tab padded, underlined when active with room below;
/// an enclosed tab boxed when active with room below, else padded; a solid or
/// pill tab filled; a minimal tab padded.
pub open spec fn tab_cell<M>(t: TabItem<M>, active: bool, x: int, w: int, focused: bool, v: TabVariant, height: u16, theme: Theme) -> TabCellView {
    let label = tab_text(t);
    TabCellView {
        x: x as u16,
        width: w as u16,
        style: tab_style_of(t.disabled, active, focused, v, theme),
        label,
        look: match v {
            TabVariant::Line => if active && height > 1 {
                TabLook::Underlined {
                    count: (text_width(seq![' '] + label + seq![' ']) % 0x10000) as u16,
                    style: styled(Some(theme.colors.primary), None, false),
                }
            } else {
                TabLook::Padded
            },
            TabVariant::Enclosed => if active && height > 1 {
                TabLook::Boxed
            } else {
                TabLook::Padded
            },
            TabVariant::Solid | TabVariant::Pills => TabLook::Filled,
            TabVariant::Minimal => TabLook::Padded,
        },
    }
}

/// The tabs `tabs[k..]` of a horizontal bar `width` wide, the next starting at
/// column `x`: each as `tab_cell` says, a column apart, up to the first that
/// does not fit.
pub open spec fn tab_cells<M>(
    tabs: Seq<TabItem<M>>,
    k: int,
    x: int,
    active: int,
    focused: bool,
    v: TabVariant,
    width: u16,
    height: u16,
    theme: Theme,
) -> Seq<TabCellView>
    decreases tabs.len() - k,
{
    if k < 0 || k >= tabs.len() {
        Seq::empty()
    } else {
        let w = tab_width(tabs[k]) + 4;
        if x + w > width {
            Seq::empty()
        } else {
            seq![tab_cell(tabs[k], k == active, x, w, focused, v, height, theme)] + tab_cells(
                tabs,
                k + 1,
                x + w + 1,
                active,
                focused,
                v,
                width,
                height,
                theme,
            )
        }
    }
}

impl<M> Tabs<M> {
    /// The tabs of the horizontal bar in a `width` by `height` area under
    /// `theme` (see `tab_cells`); none in an empty area.
    pub fn horizontal_plan(&self, width: u16, height: u16, theme: &Theme) -> (p: Vec<TabCell>)
        ensures
            (width == 0 || height < 1) ==> p@.len() == 0,
            (width > 0 && height >= 1) ==> p@.map_values(|c: TabCell| c.view()) == tab_cells(
                self.items(),
                0,
                0,
                self.active_tab() as int,
                self.widget_state().focused,
                self.tab_variant(),
                width,
                height,
                *theme,
            ),
    {
        let mut cells: Vec<TabCell> = Vec::new();
        if width == 0 || height < 1 {
            return cells;
        }
        let ghost full = tab_cells(self.items(), 0, 0, self.active_tab() as int, self.widget_state().focused, self.tab_variant(), width, height, *theme);
        let mut x: u32 = 0;
        let mut k: usize = 0;
        proof {
            assert(cells@.map_values(|c: TabCell| c.view()) + full =~= full);
        }
        while k < self.tabs.len()
            invariant
                width > 0 && height >= 1,
                k <= self.items().len(),
                x <= width as int + 1,
                full == tab_cells(self.items(), 0, 0, self.active_tab() as int, self.widget_state().focused, self.tab_variant(), width, height, *theme),
                cells@.map_values(|c: TabCell| c.view()) + tab_cells(self.items(), k as int, x as int, self.active_tab() as int, self.widget_state().focused, self.tab_variant(), width, height, *theme) == full,
            decreases self.items().len() - k,
        {
            let w: u32 = self.tabs[k].display_width() as u32 + 4;
            if x + w > width as u32 {
                proof {
                    assert(cells@.map_values(|c: TabCell| c.view()) + Seq::<TabCellView>::empty() =~= cells@.map_values(|c: TabCell| c.view()));
                }
                return cells;
            }
            let tab = &self.tabs[k];
            let active = k == self.active_index;
            let label = tab.label_text();
            let look = match self.variant {
                TabVariant::Line => if active && height > 1 {
                    let mut padded = String::new();
                    push_char(&mut padded, ' ');
                    push_str(&mut padded, label.as_str());
                    push_char(&mut padded, ' ');
                    proof {
                        assert(padded@ =~= seq![' '] + label@ + seq![' ']);
                    }
                    let count = (str_width(padded.as_str()) % 0x10000) as u16;
                    TabLook::Underlined { count, style: make_style(Some(theme.colors.primary), None, false) }
                } else {
                    TabLook::Padded
                },
                TabVariant::Enclosed => if active && height > 1 {
                    TabLook::Boxed
                } else {
                    TabLook::Padded
                },
                TabVariant::Solid | TabVariant::Pills => TabLook::Filled,
                TabVariant::Minimal => TabLook::Padded,
            };
            let style = self.tab_style(k, theme);
            let cell = TabCell { x: x as u16, width: w as u16, style, label, look };
            let ghost before = cells@.map_values(|c: TabCell| c.view());
            cells.push(cell);
            proof {
                let rest = tab_cells(self.items(), k as int + 1, (x + w + 1) as int, self.active_tab() as int, self.widget_state().focused, self.tab_variant(), width, height, *theme);
                assert(cell.view() == tab_cell(self.items()[k as int], k as int == self.active_tab() as int, x as int, w as int, self.widget_state().focused, self.tab_variant(), height, *theme));
                assert(cells@.map_values(|c: TabCell| c.view()) =~= before.push(cell.view()));
                assert(before + (seq![cell.view()] + rest) =~= before.push(cell.view()) + rest);
            }
            x = x + w + 1;
            k = k + 1;
        }
        proof {
            assert(cells@.map_values(|c: TabCell| c.view()) + Seq::<TabCellView>::empty() =~= cells@.map_values(|c: TabCell| c.view()));
        }
        cells
    }
}

/// How a tab of the vertical bar is drawn.
#[derive(PartialEq, Eq, Structural)]
pub enum RowLook {
    /// The label with a space either side, from column 0.
    Padded,
    /// Padded, with a marker of the active tab at column `x` in `style`.
    Marked { x: u16, style: Style },
    /// Columns 0 to `width` filled in the tab's style, the label from column 2.
    Filled { width: u16 },
}

/// What is drawn for one tab of the vertical bar.
pub struct TabRowView {
    pub y: u16,
    pub style: Style,
    pub label: Seq<char>,
    pub look: RowLook,
}

/// A drawn tab of the vertical bar: its line, its style, its label with the
/// badge, and its look.
pub struct TabRow {
    pub y: u16,
    pub style: Style,
    pub label: String,
    pub look: RowLook,
}

impl TabRow {
    pub open spec fn view(&self) -> TabRowView {
        TabRowView { y: self.y, style: self.style, label: self.label@, look: self.look }
    }
}

/// How tab `t` (`active` or not) is drawn on line `y` of a vertical bar whose
/// tabs take `bar` columns of `width`: in `tab_style_of`; a line tab padded,
/// marked in the primary color at the bar's last column when active and the
/// bar is narrower than the area; a solid, pill or enclosed tab filled across
/// the bar; a minimal tab padded.
pub open spec fn tab_row<M>(t: TabItem<M>, active: bool, y: int, focused: bool, v: TabVariant, bar: u16, width: u16, theme: Theme) -> TabRowView {
    TabRowView {
        y: y as u16,
        style: tab_style_of(t.disabled, active, focused, v, theme),
        label: tab_text(t),
        look: match v {
            TabVariant::Line => if active && bar < width {
                RowLook::Marked { x: (bar - 1) as u16, style: styled(Some(theme.colors.primary), None, false) }
            } else {
                RowLook::Padded
            },
            TabVariant::Minimal => RowLook::Padded,
            _ => RowLook::Filled { width: bar },
        },
    }
}

impl<M> Tabs<M> {
    /// What the vertical bar draws in a `width` by `height` area under
    /// `theme`: one tab per line from the top, as many as there are lines, each
    /// as `tab_row` says with the bar as wide as `vertical_bar_width`; nothing
    /// in an empty area.
    pub fn vertical_plan(&self, width: u16, height: u16, theme: &Theme) -> (p: Vec<TabRow>)
        ensures
            (width == 0 || height == 0) ==> p@.len() == 0,
            (width > 0 && height > 0) ==> p@.len() == if self.items().len() < height {
                self.items().len() as int
            } else {
                height as int
            },
            forall|k: int| 0 <= k < p@.len() ==> (#[trigger] p@[k]).view() == tab_row(
                self.items()[k],
                k == self.active_tab(),
                k,
                self.widget_state().focused,
                self.tab_variant(),
                vertical_bar_width(self.items()),
                width,
                *theme,
            ),
    {
        let mut rows: Vec<TabRow> = Vec::new();
        if width == 0 || height == 0 {
            return rows;
        }
        let bar = self.tab_bar_width();
        let n = self.tabs.len();
        let mut k: usize = 0;
        while k < n && k < height as usize
            invariant
                n == self.items().len(),
                k <= n,
                k <= height,
                bar == vertical_bar_width(self.items()),
                rows@.len() == k,
                forall|q: int| 0 <= q < k ==> (#[trigger] rows@[q]).view() == tab_row(
                    self.items()[q],
                    q == self.active_tab(),
                    q,
                    self.widget_state().focused,
                    self.tab_variant(),
                    bar,
                    width,
                    *theme,
                ),
            decreases n - k,
        {
            let style = self.tab_style(k, theme);
            let label = self.tabs[k].label_text();
            let look = match self.variant {
                TabVariant::Line => if k == self.active_index && bar < width {
                    RowLook::Marked { x: bar - 1, style: make_style(Some(theme.colors.primary), None, false) }
                } else {
                    RowLook::Padded
                },
                TabVariant::Minimal => RowLook::Padded,
                _ => RowLook::Filled { width: bar },
            };
            rows.push(TabRow { y: k as u16, style, label, look });
            k = k + 1;
        }
        rows
    }
}

} // verus!
