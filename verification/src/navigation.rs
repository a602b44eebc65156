//! Focus and scrolling for widgets with selectable items (lists, selects, ...).
//!
//! Which items are disabled is told by a closure `is_disabled(index)`. The
//! closure is taken to answer the same way each time it is asked about an index;
//! `disabled_at` is its answer.

use vstd::prelude::*;

verus! {

/// The answer of `is_disabled` for index `i`.
pub open spec fn disabled_at<F: Fn(usize) -> bool>(f: F, i: int) -> bool {
    f.ensures((i as usize,), true)
}

/// `f` may be asked about every index below `count`, and gives one answer per index.
pub open spec fn disabled_fn_ok<F: Fn(usize) -> bool>(f: F, count: int) -> bool {
    &&& forall|i: usize| i < count ==> #[trigger] f.requires((i,))
    &&& forall|i: usize, b1: bool, b2: bool| #[trigger]
        f.ensures((i,), b1) && #[trigger] f.ensures((i,), b2) ==> b1 == b2
}

/// Tells which items are disabled: `off(i)` for index `i`.
pub trait DisabledItems {
    /// Whether item `i` is disabled.
    spec fn off(&self, i: int) -> bool;

    /// Whether item `i` may be asked about.
    spec fn can_ask(&self, i: int) -> bool;

    /// Whether item `i` is disabled.
    fn is_off(&self, i: usize) -> (b: bool)
        requires
            self.can_ask(i as int),
        ensures
            b == self.off(i as int),
    ;
}

/// A closure `is_disabled(index)` tells it; `disabled_at` is its answer.
impl<F: Fn(usize) -> bool> DisabledItems for F {
    open spec fn off(&self, i: int) -> bool {
        disabled_at(*self, i)
    }

    open spec fn can_ask(&self, i: int) -> bool {
        &&& self.requires((i as usize,))
        &&& forall|b1: bool, b2: bool| #[trigger]
            self.ensures((i as usize,), b1) && #[trigger] self.ensures((i as usize,), b2) ==> b1 == b2
    }

    fn is_off(&self, i: usize) -> (b: bool) {
        (self)(i)
    }
}

/// No item is disabled.
pub struct NoneDisabled;

impl DisabledItems for NoneDisabled {
    open spec fn off(&self, i: int) -> bool {
        false
    }

    open spec fn can_ask(&self, i: int) -> bool {
        true
    }

    fn is_off(&self, i: usize) -> (b: bool) {
        false
    }
}

/// Every item below `count` may be asked about.
pub open spec fn answers<D: DisabledItems>(d: &D, count: int) -> bool {
    forall|i: int| 0 <= i < count ==> #[trigger] d.can_ask(i)
}

/// A closure that may be asked about every index below `count` and gives one
/// answer per index answers every item below `count`.
pub proof fn lemma_closure_answers<F: Fn(usize) -> bool>(f: F, count: int)
    requires
        disabled_fn_ok(f, count),
        count <= usize::MAX + 1,
    ensures
        answers(&f, count),
{
    assert forall|i: int| 0 <= i < count implies #[trigger] f.can_ask(i) by {
        assert(f.requires(((i as usize),)));
    }
}

/// The first enabled index of the cyclic scan `start, start + 1, ...` (mod `count`)
/// from step `k` on.
pub open spec fn scan_forward(dis: spec_fn(int) -> bool, start: int, count: int, k: int) -> Option<
    int,
>
    decreases count - k,
{
    if k >= count || count <= 0 {
        None
    } else if !dis((start + k) % count) {
        Some((start + k) % count)
    } else {
        scan_forward(dis, start, count, k + 1)
    }
}

/// The first enabled index of the cyclic scan `start, start - 1, ...` (mod `count`)
/// from step `k` on.
pub open spec fn scan_backward(dis: spec_fn(int) -> bool, start: int, count: int, k: int) -> Option<
    int,
>
    decreases count - k,
{
    if k >= count || count <= 0 {
        None
    } else if !dis((start + count - k) % count) {
        Some((start + count - k) % count)
    } else {
        scan_backward(dis, start, count, k + 1)
    }
}

/// With nothing disabled, the forward scan stops at its start and the backward
/// scan at its start too (both taken cyclically).
pub proof fn law_scan_all_enabled(dis: spec_fn(int) -> bool, s: int, n: int)
    requires
        n > 0,
        forall|i: int| !#[trigger] dis(i),
    ensures
        scan_forward(dis, s, n, 0) == Some(s % n),
        scan_backward(dis, s, n, 0) == Some((s + n) % n),
{
}

/// The smallest enabled index in `from..count`.
pub open spec fn first_up(dis: spec_fn(int) -> bool, from: int, count: int) -> Option<int>
    decreases count - from,
{
    if from >= count {
        None
    } else if !dis(from) {
        Some(from)
    } else {
        first_up(dis, from + 1, count)
    }
}

/// The largest enabled index in `0..=from`.
pub open spec fn first_down(dis: spec_fn(int) -> bool, from: int) -> Option<int>
    decreases from + 1,
{
    if from < 0 {
        None
    } else if !dis(from) {
        Some(from)
    } else {
        first_down(dis, from - 1)
    }
}

/// Where `focus_next` scans from.
pub open spec fn next_start(focused: Option<usize>) -> int {
    match focused {
        Some(i) => i + 1,
        None => 0,
    }
}

/// Where `focus_previous` scans from.
pub open spec fn previous_start(focused: Option<usize>, count: int) -> int {
    match focused {
        Some(i) => if i >= 1 {
            i - 1
        } else {
            count - 1
        },
        None => count - 1,
    }
}

/// The step of a page move: one less than the viewport, at least one.
pub open spec fn page_size(viewport: int) -> int {
    if viewport - 1 >= 1 {
        viewport - 1
    } else {
        1
    }
}

/// The index `page_down` aims at.
pub open spec fn page_down_target(focused: Option<usize>, viewport: int, count: int) -> int {
    let current = match focused {
        Some(i) => i as int,
        None => 0,
    };
    if current + page_size(viewport) < count - 1 {
        current + page_size(viewport)
    } else {
        count - 1
    }
}

/// The index `page_up` aims at.
pub open spec fn page_up_target(focused: Option<usize>, viewport: int) -> int {
    let current = match focused {
        Some(i) => i as int,
        None => 0,
    };
    if current - page_size(viewport) >= 0 {
        current - page_size(viewport)
    } else {
        0
    }
}

/// Where `page_down` moves focus: the nearest enabled index at or after the
/// target, else the nearest before it.
pub open spec fn page_down_result(dis: spec_fn(int) -> bool, focused: Option<usize>, viewport: int, count: int) -> Option<
    int,
> {
    let t = page_down_target(focused, viewport, count);
    if first_up(dis, t, count).is_some() {
        first_up(dis, t, count)
    } else {
        first_down(dis, t)
    }
}

/// Where `page_up` moves focus: the nearest enabled index at or before the
/// target, else the nearest after it.
pub open spec fn page_up_result(dis: spec_fn(int) -> bool, focused: Option<usize>, viewport: int, count: int) -> Option<
    int,
> {
    let t = page_up_target(focused, viewport);
    if first_down(dis, t).is_some() {
        first_down(dis, t)
    } else {
        first_up(dis, t, count)
    }
}

/// The scroll offset after making index `f` visible: an index above the
/// offset becomes the offset, one below the viewport becomes its last row; a
/// viewport of no rows keeps its offset otherwise.
pub open spec fn visible_offset(offset: int, viewport: int, f: int) -> int {
    if f < offset {
        f
    } else if viewport > 0 && f >= offset + viewport {
        f - (viewport - 1)
    } else {
        offset
    }
}

/// Making index `f` visible neither overflows nor underflows.
pub open spec fn visible_ok(offset: int, viewport: int, f: int) -> bool {
    f < offset || offset + viewport <= usize::MAX
}

/// Navigation helper for widgets with selectable items.
#[derive(Debug, Clone, Copy)]
pub struct SelectableNavigation {
    focused_index: Option<usize>,
    scroll_offset: usize,
    viewport_size: usize,
}

impl SelectableNavigation {
    pub closed spec fn focused(&self) -> Option<usize> {
        self.focused_index
    }

    pub closed spec fn offset(&self) -> usize {
        self.scroll_offset
    }

    pub closed spec fn viewport(&self) -> usize {
        self.viewport_size
    }

    /// The state after focusing index `f` and making it visible.
    pub open spec fn focus_moved(old: Self, new: Self, f: int) -> bool {
        &&& new.focused() == Some(f as usize)
        &&& new.offset() == visible_offset(old.offset() as int, old.viewport() as int, f)
        &&& new.viewport() == old.viewport()
    }

    /// What a move to `target` (if any) leaves.
    pub open spec fn moved_to(old: Self, new: Self, target: Option<int>) -> bool {
        match target {
            Some(f) => Self::focus_moved(old, new, f),
            None => new == old,
        }
    }

    /// A helper with no focus, no scroll and the given viewport size.
    pub fn new(_item_count: usize, viewport_size: usize) -> (n: Self)
        ensures
            n.focused().is_none(),
            n.offset() == 0,
            n.viewport() == viewport_size,
    {
        SelectableNavigation { focused_index: None, scroll_offset: 0, viewport_size }
    }

    /// A helper focused on `initial_index`.
    pub fn with_initial_focus(item_count: usize, viewport_size: usize, initial_index: Option<usize>) -> (n: Self)
        ensures
            n.focused() == initial_index,
            n.offset() == 0,
            n.viewport() == viewport_size,
    {
        let mut nav = Self::new(item_count, viewport_size);
        nav.focused_index = initial_index;
        nav
    }

    pub fn focused_index(&self) -> (r: Option<usize>)
        ensures
            r == self.focused(),
    {
        self.focused_index
    }

    pub fn scroll_offset(&self) -> (r: usize)
        ensures
            r == self.offset(),
    {
        self.scroll_offset
    }

    pub fn set_focused_index(&mut self, index: Option<usize>)
        ensures
            final(self).focused() == index,
            final(self).offset() == old(self).offset(),
            final(self).viewport() == old(self).viewport(),
    {
        self.focused_index = index;
    }

    pub fn set_scroll_offset(&mut self, offset: usize)
        ensures
            final(self).focused() == old(self).focused(),
            final(self).offset() == offset,
            final(self).viewport() == old(self).viewport(),
    {
        self.scroll_offset = offset;
    }

    pub fn set_viewport_size(&mut self, size: usize)
        ensures
            final(self).focused() == old(self).focused(),
            final(self).offset() == old(self).offset(),
            final(self).viewport() == size,
    {
        self.viewport_size = size;
    }

    pub fn viewport_size(&self) -> (r: usize)
        ensures
            r == self.viewport(),
    {
        self.viewport_size
    }

    /// Adjusts the scroll offset so that the focused item is in the viewport
    /// (see `visible_offset`; a viewport of no rows only follows an item above
    /// its offset).
    pub fn ensure_visible(&mut self, _item_count: usize)
        requires
            old(self).focused() matches Some(f) ==> visible_ok(
                old(self).offset() as int,
                old(self).viewport() as int,
                f as int,
            ),
        ensures
            final(self).focused() == old(self).focused(),
            final(self).viewport() == old(self).viewport(),
            final(self).offset() == match old(self).focused() {
                Some(f) => visible_offset(old(self).offset() as int, old(self).viewport() as int, f as int),
                None => old(self).offset() as int,
            },
    {
        if let Some(focused_idx) = self.focused_index {
            if focused_idx < self.scroll_offset {
                self.scroll_offset = focused_idx;
            } else if self.viewport_size > 0 && focused_idx >= self.scroll_offset + self.viewport_size {
                self.scroll_offset = focused_idx - (self.viewport_size - 1);
            }
        }
    }

    /// Focuses `idx` and makes it visible.
    fn move_to(&mut self, idx: usize)
        requires
            visible_ok(old(self).offset() as int, old(self).viewport() as int, idx as int),
        ensures
            Self::focus_moved(*old(self), *final(self), idx as int),
    {
        self.focused_index = Some(idx);
        self.ensure_visible(0);
    }

    /// Whether `index` is in the viewport.
    pub fn is_visible(&self, index: usize) -> (b: bool)
        requires
            index >= self.offset() ==> self.offset() + self.viewport() <= usize::MAX,
        ensures
            b == (self.offset() <= index < self.offset() + self.viewport()),
    {
        index >= self.scroll_offset && index < self.scroll_offset + self.viewport_size
    }

    /// The visible range of indices `(start, end)`.
    pub fn visible_range(&self, item_count: usize) -> (r: (usize, usize))
        requires
            self.offset() + self.viewport() <= usize::MAX,
        ensures
            r.0 == self.offset(),
            r.1 == if self.offset() + self.viewport() < item_count {
                self.offset() + self.viewport()
            } else {
                item_count as int
            },
    {
        let start = self.scroll_offset;
        let end = if start + self.viewport_size < item_count {
            start + self.viewport_size
        } else {
            item_count
        };
        (start, end)
    }

    /// Moves focus to the next enabled item, wrapping around; nothing changes
    /// when there are no items or all are disabled.
    pub fn focus_next<F>(&mut self, is_disabled: F, item_count: usize) where F: DisabledItems
        requires
            answers(&is_disabled, item_count as int),
            item_count > 0 ==> next_start(old(self).focused()) + item_count <= usize::MAX + 1,
            item_count > 0 ==> (scan_forward(
                |i: int| is_disabled.off(i),
                next_start(old(self).focused()),
                item_count as int,
                0,
            ) matches Some(t) ==> visible_ok(old(self).offset() as int, old(self).viewport() as int, t)),
        ensures
            item_count == 0 ==> *final(self) == *old(self),
            item_count > 0 ==> Self::moved_to(
                *old(self),
                *final(self),
                scan_forward(
                    |i: int| is_disabled.off(i),
                    next_start(old(self).focused()),
                    item_count as int,
                    0,
                ),
            ),
    {
        if item_count == 0 {
            return;
        }
        let ghost dis = |i: int| is_disabled.off(i);
        let start_idx: usize = match self.focused_index {
            Some(i) => i + 1,
            None => 0,
        };
        let mut offset: usize = 0;
        while offset < item_count
            invariant
                answers(&is_disabled, item_count as int),
                item_count > 0,
                start_idx == next_start(self.focused()),
                start_idx + item_count <= usize::MAX + 1,
                offset <= item_count,
                *self == *old(self),
                dis == (|i: int| is_disabled.off(i)),
                scan_forward(dis, start_idx as int, item_count as int, offset as int) == scan_forward(
                    dis,
                    start_idx as int,
                    item_count as int,
                    0,
                ),
                scan_forward(dis, start_idx as int, item_count as int, 0) matches Some(t)
                    ==> visible_ok(self.offset() as int, self.viewport() as int, t),
            decreases item_count - offset,
        {
            let idx = (start_idx + offset) % item_count;
            if !is_disabled.is_off(idx) {
                proof {
                    assert(!is_disabled.off(idx as int));
                }
                self.move_to(idx);
                return;
            }
            proof {
                assert(is_disabled.off(idx as int));
            }
            offset = offset + 1;
        }
    }

    /// Moves focus to the previous enabled item, wrapping around; nothing changes
    /// when there are no items or all are disabled.
    pub fn focus_previous<F>(&mut self, is_disabled: F, item_count: usize) where
        F: DisabledItems,

        requires
            answers(&is_disabled, item_count as int),
            item_count > 0 ==> previous_start(old(self).focused(), item_count as int) + item_count
                <= usize::MAX,
            item_count > 0 ==> (scan_backward(
                |i: int| is_disabled.off(i),
                previous_start(old(self).focused(), item_count as int),
                item_count as int,
                0,
            ) matches Some(t) ==> visible_ok(old(self).offset() as int, old(self).viewport() as int, t)),
        ensures
            item_count == 0 ==> *final(self) == *old(self),
            item_count > 0 ==> Self::moved_to(
                *old(self),
                *final(self),
                scan_backward(
                    |i: int| is_disabled.off(i),
                    previous_start(old(self).focused(), item_count as int),
                    item_count as int,
                    0,
                ),
            ),
    {
        if item_count == 0 {
            return;
        }
        let ghost dis = |i: int| is_disabled.off(i);
        let start_idx: usize = match self.focused_index {
            Some(i) => if i >= 1 {
                i - 1
            } else {
                item_count - 1
            },
            None => item_count - 1,
        };
        let mut offset: usize = 0;
        while offset < item_count
            invariant
                answers(&is_disabled, item_count as int),
                item_count > 0,
                start_idx == previous_start(self.focused(), item_count as int),
                start_idx + item_count <= usize::MAX,
                offset <= item_count,
                *self == *old(self),
                dis == (|i: int| is_disabled.off(i)),
                scan_backward(dis, start_idx as int, item_count as int, offset as int)
                    == scan_backward(dis, start_idx as int, item_count as int, 0),
                scan_backward(dis, start_idx as int, item_count as int, 0) matches Some(t)
                    ==> visible_ok(self.offset() as int, self.viewport() as int, t),
            decreases item_count - offset,
        {
            let idx = (start_idx + item_count - offset) % item_count;
            if !is_disabled.is_off(idx) {
                proof {
                    assert(!is_disabled.off(idx as int));
                }
                self.move_to(idx);
                return;
            }
            proof {
                assert(is_disabled.off(idx as int));
            }
            offset = offset + 1;
        }
    }

    /// Searches `from..count` upward for an enabled index.
    fn search_up<F>(is_disabled: &F, from: usize, item_count: usize) -> (r: Option<usize>) where
        F: DisabledItems,

        requires
            answers(is_disabled, item_count as int),
        ensures
            r matches Some(i) ==> i < item_count,
            (match r {
                Some(i) => Some(i as int),
                None => None,
            }) == first_up(|i: int| is_disabled.off(i), from as int, item_count as int),
    {
        let ghost dis = |i: int| is_disabled.off(i);
        let mut idx = from;
        while idx < item_count
            invariant
                answers(is_disabled, item_count as int),
                from <= idx || idx >= item_count,
                dis == (|i: int| is_disabled.off(i)),
                first_up(dis, idx as int, item_count as int) == first_up(
                    dis,
                    from as int,
                    item_count as int,
                ),
            decreases item_count - idx,
        {
            if !is_disabled.is_off(idx) {
                assert(!is_disabled.off(idx as int));
                return Some(idx);
            }
            assert(is_disabled.off(idx as int));
            idx = idx + 1;
        }
        None
    }

    /// Searches `0..=from` downward for an enabled index.
    fn search_down<F>(is_disabled: &F, from: usize, item_count: usize) -> (r: Option<usize>) where
        F: DisabledItems,

        requires
            from < item_count,
            answers(is_disabled, item_count as int),
        ensures
            r matches Some(i) ==> i <= from,
            (match r {
                Some(i) => Some(i as int),
                None => None,
            }) == first_down(|i: int| is_disabled.off(i), from as int),
    {
        let ghost dis = |i: int| is_disabled.off(i);
        let mut idx = from + 1;
        while idx > 0
            invariant
                from < item_count,
                idx <= from + 1,
                answers(is_disabled, item_count as int),
                dis == (|i: int| is_disabled.off(i)),
                first_down(dis, idx - 1) == first_down(dis, from as int),
            decreases idx,
        {
            if !is_disabled.is_off(idx - 1) {
                assert(!is_disabled.off(idx - 1));
                return Some(idx - 1);
            }
            assert(is_disabled.off(idx - 1));
            idx = idx - 1;
        }
        None
    }

    /// Moves focus to the first enabled item.
    pub fn focus_first<F>(&mut self, is_disabled: F, item_count: usize) where F: DisabledItems
        requires
            answers(&is_disabled, item_count as int),
            first_up(|i: int| is_disabled.off(i), 0, item_count as int) matches Some(t)
                ==> visible_ok(old(self).offset() as int, old(self).viewport() as int, t),
        ensures
            Self::moved_to(
                *old(self),
                *final(self),
                first_up(|i: int| is_disabled.off(i), 0, item_count as int),
            ),
    {
        match Self::search_up(&is_disabled, 0, item_count) {
            Some(idx) => self.move_to(idx),
            None => {},
        }
    }

    /// Moves focus to the last enabled item.
    pub fn focus_last<F>(&mut self, is_disabled: F, item_count: usize) where F: DisabledItems
        requires
            answers(&is_disabled, item_count as int),
            first_down(|i: int| is_disabled.off(i), item_count - 1) matches Some(t)
                ==> visible_ok(old(self).offset() as int, old(self).viewport() as int, t),
        ensures
            Self::moved_to(
                *old(self),
                *final(self),
                first_down(|i: int| is_disabled.off(i), item_count - 1),
            ),
    {
        if item_count == 0 {
            return;
        }
        match Self::search_down(&is_disabled, item_count - 1, item_count) {
            Some(idx) => self.move_to(idx),
            None => {},
        }
    }

    /// Moves focus forward by a page (one less than the viewport, at least one).
    pub fn page_down<F>(&mut self, is_disabled: F, item_count: usize) where F: DisabledItems
        requires
            answers(&is_disabled, item_count as int),
            item_count > 0 ==> (match old(self).focused() {
                Some(i) => i as int,
                None => 0,
            }) + page_size(old(self).viewport() as int) <= usize::MAX,
            item_count > 0 ==> (page_down_result(
                |i: int| is_disabled.off(i),
                old(self).focused(),
                old(self).viewport() as int,
                item_count as int,
            ) matches Some(t) ==> visible_ok(old(self).offset() as int, old(self).viewport() as int, t)),
        ensures
            item_count == 0 ==> *final(self) == *old(self),
            item_count > 0 ==> Self::moved_to(
                *old(self),
                *final(self),
                page_down_result(
                    |i: int| is_disabled.off(i),
                    old(self).focused(),
                    old(self).viewport() as int,
                    item_count as int,
                ),
            ),
    {
        if item_count == 0 {
            return;
        }
        let page = if self.viewport_size >= 2 {
            self.viewport_size - 1
        } else {
            1
        };
        let current = match self.focused_index {
            Some(i) => i,
            None => 0,
        };
        let target = if current + page < item_count - 1 {
            current + page
        } else {
            item_count - 1
        };
        match Self::search_up(&is_disabled, target, item_count) {
            Some(idx) => {
                self.move_to(idx);
                return;
            },
            None => {},
        }
        match Self::search_down(&is_disabled, target, item_count) {
            Some(idx) => self.move_to(idx),
            None => {},
        }
    }

    /// Moves focus backward by a page (one less than the viewport, at least one).
    pub fn page_up<F>(&mut self, is_disabled: F, item_count: usize) where F: DisabledItems
        requires
            answers(&is_disabled, item_count as int),
            item_count > 0 ==> (page_up_result(
                |i: int| is_disabled.off(i),
                old(self).focused(),
                old(self).viewport() as int,
                item_count as int,
            ) matches Some(t) ==> visible_ok(old(self).offset() as int, old(self).viewport() as int, t)),
            item_count > 0 ==> page_up_target(old(self).focused(), old(self).viewport() as int)
                < item_count,
        ensures
            item_count == 0 ==> *final(self) == *old(self),
            item_count > 0 ==> Self::moved_to(
                *old(self),
                *final(self),
                page_up_result(
                    |i: int| is_disabled.off(i),
                    old(self).focused(),
                    old(self).viewport() as int,
                    item_count as int,
                ),
            ),
    {
        if item_count == 0 {
            return;
        }
        let page = if self.viewport_size >= 2 {
            self.viewport_size - 1
        } else {
            1
        };
        let current = match self.focused_index {
            Some(i) => i,
            None => 0,
        };
        let target = if current >= page {
            current - page
        } else {
            0
        };
        match Self::search_down(&is_disabled, target, item_count) {
            Some(idx) => {
                self.move_to(idx);
                return;
            },
            None => {},
        }
        match Self::search_up(&is_disabled, target, item_count) {
            Some(idx) => self.move_to(idx),
            None => {},
        }
    }
}

/// A focus move of a widget with selectable items.
#[derive(Debug, Clone, Copy, PartialEq, Eq, Structural)]
pub enum NavAction {
    Next,
    Previous,
    First,
    Last,
    PageDown,
    PageUp,
}

/// Where a focus move goes (`None`: nowhere, the state stays).
pub open spec fn nav_target(action: NavAction, dis: spec_fn(int) -> bool, nav: SelectableNavigation, count: int) -> Option<int> {
    if count <= 0 {
        None
    } else {
        match action {
            NavAction::Next => scan_forward(dis, next_start(nav.focused()), count, 0),
            NavAction::Previous => scan_backward(dis, previous_start(nav.focused(), count), count, 0),
            NavAction::First => first_up(dis, 0, count),
            NavAction::Last => first_down(dis, count - 1),
            NavAction::PageDown => page_down_result(dis, nav.focused(), nav.viewport() as int, count),
            NavAction::PageUp => page_up_result(dis, nav.focused(), nav.viewport() as int, count),
        }
    }
}

/// A navigation state that moves without overflow over `count` items: focus
/// and offset within the items, a viewport of at most 65535 rows, and no more
/// items than any machine holds.
pub open spec fn nav_fits(nav: SelectableNavigation, count: int) -> bool {
    &&& count <= usize::MAX / 2
    &&& nav.viewport() <= 0xFFFF
    &&& (nav.focused() matches Some(i) ==> i < count)
    &&& (nav.offset() == 0 || nav.offset() < count)
}

/// Performs a focus move on `nav` over `count` items, `is_disabled` telling which
/// items are disabled.
pub fn navigate<F: DisabledItems>(nav: &mut SelectableNavigation, action: NavAction, is_disabled: F, count: usize)
    requires
        answers(&is_disabled, count as int),
        nav_fits(*old(nav), count as int),
    ensures
        SelectableNavigation::moved_to(
            *old(nav),
            *final(nav),
            nav_target(action, |i: int| is_disabled.off(i), *old(nav), count as int),
        ),
        nav_fits(*final(nav), count as int),
{
    let ghost dis = |i: int| is_disabled.off(i);
    proof {
        law_nav_target_valid(action, dis, *nav, count as int);
        law_nav_target_valid(NavAction::Next, dis, *nav, count as int);
        law_nav_target_valid(NavAction::Previous, dis, *nav, count as int);
        law_nav_target_valid(NavAction::First, dis, *nav, count as int);
        law_nav_target_valid(NavAction::Last, dis, *nav, count as int);
        law_nav_target_valid(NavAction::PageDown, dis, *nav, count as int);
        law_nav_target_valid(NavAction::PageUp, dis, *nav, count as int);
    }
    if count == 0 {
        return;
    }
    match action {
        NavAction::Next => nav.focus_next(is_disabled, count),
        NavAction::Previous => nav.focus_previous(is_disabled, count),
        NavAction::First => nav.focus_first(is_disabled, count),
        NavAction::Last => nav.focus_last(is_disabled, count),
        NavAction::PageDown => nav.page_down(is_disabled, count),
        NavAction::PageUp => nav.page_up(is_disabled, count),
    }
    proof {
        let t = nav_target(action, dis, *old(nav), count as int);
        if let Some(f) = t {
            if old(nav).viewport() > 0 {
                law_visible_after_ensure(old(nav).offset() as int, old(nav).viewport() as int, f);
            }
        }
    }
}

// ---------------------------------------------------------------------------
// Laws
// ---------------------------------------------------------------------------

/// The forward scan stops at an enabled index below the count, having passed
/// only disabled ones.
pub proof fn law_scan_forward_valid(dis: spec_fn(int) -> bool, start: int, count: int, k: int)
    requires
        start >= 0,
        k >= 0,
    ensures
        scan_forward(dis, start, count, k) matches Some(t) ==> 0 <= t < count && !dis(t),
    decreases count - k,
{
    if k < count && count > 0 && dis((start + k) % count) {
        law_scan_forward_valid(dis, start, count, k + 1);
    }
}

/// The backward scan stops at an enabled index below the count.
pub proof fn law_scan_backward_valid(dis: spec_fn(int) -> bool, start: int, count: int, k: int)
    requires
        start >= 0,
        k >= 0,
    ensures
        scan_backward(dis, start, count, k) matches Some(t) ==> 0 <= t < count && !dis(t),
    decreases count - k,
{
    if k < count && count > 0 && dis((start + count - k) % count) {
        law_scan_backward_valid(dis, start, count, k + 1);
    }
}

/// `first_up` finds the smallest enabled index in `from..count`; it finds none
/// exactly when all of them are disabled.
pub proof fn law_first_up(dis: spec_fn(int) -> bool, from: int, count: int)
    ensures
        first_up(dis, from, count) matches Some(t) ==> from <= t < count && !dis(t) && forall|j: int|
            from <= j < t ==> #[trigger] dis(j),
        first_up(dis, from, count) is None <==> forall|j: int| from <= j < count ==> #[trigger] dis(j),
    decreases count - from,
{
    if from < count && dis(from) {
        law_first_up(dis, from + 1, count);
        assert forall|j: int| from <= j < count && (first_up(dis, from, count) is None) implies #[trigger] dis(j) by {
            if j > from {
            }
        }
    }
}

/// `first_down` finds the largest enabled index in `0..=from`; it finds none
/// exactly when all of them are disabled.
pub proof fn law_first_down(dis: spec_fn(int) -> bool, from: int)
    ensures
        first_down(dis, from) matches Some(t) ==> 0 <= t <= from && !dis(t) && forall|j: int|
            t < j <= from ==> #[trigger] dis(j),
        first_down(dis, from) is None <==> forall|j: int| 0 <= j <= from ==> #[trigger] dis(j),
    decreases from + 1,
{
    if from >= 0 && dis(from) {
        law_first_down(dis, from - 1);
    }
}

/// Two answers agree on every index below `count`.
pub open spec fn agree_below(d1: spec_fn(int) -> bool, d2: spec_fn(int) -> bool, count: int) -> bool {
    forall|i: int| 0 <= i < count ==> #[trigger] d1(i) == d2(i)
}

/// The forward scan only asks about indices below the count.
pub proof fn law_scan_forward_local(d1: spec_fn(int) -> bool, d2: spec_fn(int) -> bool, start: int, count: int, k: int)
    requires
        agree_below(d1, d2, count),
        start >= 0,
        k >= 0,
    ensures
        scan_forward(d1, start, count, k) == scan_forward(d2, start, count, k),
    decreases count - k,
{
    if k < count && count > 0 {
        let i = (start + k) % count;
        assert(0 <= i < count);
        assert(d1(i) == d2(i));
        law_scan_forward_local(d1, d2, start, count, k + 1);
    }
}

/// The backward scan only asks about indices below the count.
pub proof fn law_scan_backward_local(d1: spec_fn(int) -> bool, d2: spec_fn(int) -> bool, start: int, count: int, k: int)
    requires
        agree_below(d1, d2, count),
        start >= 0,
        k >= 0,
    ensures
        scan_backward(d1, start, count, k) == scan_backward(d2, start, count, k),
    decreases count - k,
{
    if k < count && count > 0 {
        let i = (start + count - k) % count;
        assert(0 <= i < count);
        assert(d1(i) == d2(i));
        law_scan_backward_local(d1, d2, start, count, k + 1);
    }
}

/// `first_up` only asks about indices below the count.
pub proof fn law_first_up_local(d1: spec_fn(int) -> bool, d2: spec_fn(int) -> bool, from: int, count: int)
    requires
        agree_below(d1, d2, count),
        from >= 0,
    ensures
        first_up(d1, from, count) == first_up(d2, from, count),
    decreases count - from,
{
    if from < count {
        assert(d1(from) == d2(from));
        law_first_up_local(d1, d2, from + 1, count);
    }
}

/// `first_down` from below the count only asks about indices below the count.
pub proof fn law_first_down_local(d1: spec_fn(int) -> bool, d2: spec_fn(int) -> bool, from: int, count: int)
    requires
        agree_below(d1, d2, count),
        from < count,
    ensures
        first_down(d1, from) == first_down(d2, from),
    decreases from + 1,
{
    if from >= 0 {
        assert(d1(from) == d2(from));
        law_first_down_local(d1, d2, from - 1, count);
    }
}

/// The target of a focus move only asks about indices below the count.
pub proof fn law_nav_target_local(action: NavAction, d1: spec_fn(int) -> bool, d2: spec_fn(int) -> bool, nav: SelectableNavigation, count: int)
    requires
        agree_below(d1, d2, count),
        nav_fits(nav, count),
    ensures
        nav_target(action, d1, nav, count) == nav_target(action, d2, nav, count),
{
    if count > 0 {
        law_scan_forward_local(d1, d2, next_start(nav.focused()), count, 0);
        if previous_start(nav.focused(), count) >= 0 {
            law_scan_backward_local(d1, d2, previous_start(nav.focused(), count), count, 0);
        }
        law_first_up_local(d1, d2, 0, count);
        law_first_down_local(d1, d2, count - 1, count);
        let td = page_down_target(nav.focused(), nav.viewport() as int, count);
        let tu = page_up_target(nav.focused(), nav.viewport() as int);
        if td >= 0 {
            law_first_up_local(d1, d2, td, count);
        }
        if td < count {
            law_first_down_local(d1, d2, td, count);
        }
        if tu >= 0 {
            law_first_up_local(d1, d2, tu, count);
        }
        if tu < count {
            law_first_down_local(d1, d2, tu, count);
        }
    }
}

/// Every target of a focus move is an enabled index below the count.
pub proof fn law_nav_target_valid(action: NavAction, dis: spec_fn(int) -> bool, nav: SelectableNavigation, count: int)
    requires
        nav_fits(nav, count),
    ensures
        nav_target(action, dis, nav, count) matches Some(t) ==> 0 <= t < count && !dis(t),
{
    if count > 0 {
        law_scan_forward_valid(dis, next_start(nav.focused()), count, 0);
        law_scan_backward_valid(dis, previous_start(nav.focused(), count), count, 0);
        law_first_up(dis, 0, count);
        law_first_down(dis, count - 1);
        let td = page_down_target(nav.focused(), nav.viewport() as int, count);
        let tu = page_up_target(nav.focused(), nav.viewport() as int);
        law_first_up(dis, td, count);
        law_first_down(dis, td);
        law_first_up(dis, tu, count);
        law_first_down(dis, tu);
    }
}

/// After `ensure_visible` with a non-empty viewport, the focused index lies in
/// the viewport.
pub proof fn law_visible_after_ensure(offset: int, viewport: int, f: int)
    requires
        viewport > 0,
        0 <= offset,
        0 <= f,
    ensures
        visible_offset(offset, viewport, f) <= f < visible_offset(offset, viewport, f) + viewport,
        visible_offset(offset, viewport, f) >= 0,
{
}

proof fn lemma_mod_wrap(x: int, n: int)
    requires
        n > 0,
        0 <= x < 2 * n,
    ensures
        x % n == (if x < n {
            x
        } else {
            x - n
        }),
{
    if x < n {
        vstd::arithmetic::div_mod::lemma_small_mod(x as nat, n as nat);
    } else {
        vstd::arithmetic::div_mod::lemma_small_mod((x - n) as nat, n as nat);
        vstd::arithmetic::div_mod::lemma_mod_add_multiples_vanish(x - n, n);
    }
}

/// The forward scan stops at step `m` when that step is the first enabled one.
proof fn lemma_scan_forward_at(dis: spec_fn(int) -> bool, start: int, count: int, k: int, m: int)
    requires
        0 <= k <= m < count,
        !dis((start + m) % count),
        forall|j: int| k <= j < m ==> #[trigger] dis((start + j) % count),
    ensures
        scan_forward(dis, start, count, k) == Some((start + m) % count),
    decreases m - k,
{
    if k < m {
        lemma_scan_forward_at(dis, start, count, k + 1, m);
    }
}

/// The backward scan stops at step `m` when that step is the first enabled one.
proof fn lemma_scan_backward_at(dis: spec_fn(int) -> bool, start: int, count: int, k: int, m: int)
    requires
        0 <= k <= m < count,
        !dis((start + count - m) % count),
        forall|j: int| k <= j < m ==> #[trigger] dis((start + count - j) % count),
    ensures
        scan_backward(dis, start, count, k) == Some((start + count - m) % count),
    decreases m - k,
{
    if k < m {
        lemma_scan_backward_at(dis, start, count, k + 1, m);
    }
}

/// The step at which the forward scan stops.
proof fn lemma_scan_forward_step(dis: spec_fn(int) -> bool, start: int, count: int, k: int) -> (m: int)
    requires
        0 <= k,
        scan_forward(dis, start, count, k) is Some,
    ensures
        k <= m < count,
        scan_forward(dis, start, count, k) == Some((start + m) % count),
        !dis((start + m) % count),
        forall|j: int| k <= j < m ==> #[trigger] dis((start + j) % count),
    decreases count - k,
{
    if !dis((start + k) % count) {
        k
    } else {
        lemma_scan_forward_step(dis, start, count, k + 1)
    }
}

/// Moving focus to the next enabled item and then to the previous one comes back
/// to where it started, when that item is enabled.
pub proof fn law_next_then_previous(dis: spec_fn(int) -> bool, f: int, count: int)
    requires
        0 <= f < count,
        !dis(f),
    ensures
        scan_forward(dis, f + 1, count, 0) matches Some(t) && scan_backward(
            dis,
            if t >= 1 {
                t - 1
            } else {
                count - 1
            },
            count,
            0,
        ) == Some(f),
{
    let n = count;
    // f itself is reached at the last step, so the scan stops somewhere
    lemma_mod_wrap(f + 1 + (n - 1), n);
    if scan_forward(dis, f + 1, n, 0) is None {
        assert forall|j: int| 0 <= j < n - 1 implies #[trigger] dis((f + 1 + j) % n) by {
            lemma_scan_forward_none(dis, f + 1, n, 0, j);
        }
        lemma_scan_forward_at(dis, f + 1, n, 0, n - 1);
    }
    let m = lemma_scan_forward_step(dis, f + 1, n, 0);
    let t = (f + 1 + m) % n;
    lemma_mod_wrap(f + 1 + m, n);
    let s = if t >= 1 {
        t - 1
    } else {
        n - 1
    };
    // step j backward from s lands on the index that the forward scan saw at step m - 1 - j
    assert forall|j: int| 0 <= j < m implies #[trigger] dis((s + n - j) % n) by {
        lemma_mod_wrap(s + n - j, n);
        lemma_mod_wrap(f + 1 + (m - 1 - j), n);
        assert((s + n - j) % n == (f + 1 + (m - 1 - j)) % n);
    }
    lemma_mod_wrap(s + n - m, n);
    assert((s + n - m) % n == f);
    lemma_scan_backward_at(dis, s, n, 0, m);
}

/// When the forward scan finds nothing, every step it took was disabled.
proof fn lemma_scan_forward_none(dis: spec_fn(int) -> bool, start: int, count: int, k: int, j: int)
    requires
        0 <= k <= j < count,
        scan_forward(dis, start, count, k) is None,
    ensures
        dis((start + j) % count),
    decreases j - k,
{
    if k < j {
        lemma_scan_forward_none(dis, start, count, k + 1, j);
    }
}

/// The index `m` places on from `s`, wrapping round `count` items.
pub open spec fn step_on(s: int, m: int, count: int) -> int {
    (s + m) % count
}

/// The index `m` places back from `s`, wrapping round `count` items.
pub open spec fn step_back(s: int, m: int, count: int) -> int {
    (s + count - m) % count
}

/// The forward scan stops at the first enabled index it meets.
proof fn lemma_scan_forward_first(dis: spec_fn(int) -> bool, start: int, count: int, k: int)
    requires
        0 <= k,
    ensures
        scan_forward(dis, start, count, k) matches Some(t) ==> exists|m: int|
            k <= m < count && t == #[trigger] step_on(start, m, count) && forall|q: int|
                k <= q < m ==> dis(#[trigger] step_on(start, q, count)),
    decreases count - k,
{
    if k < count && count > 0 {
        if !dis(step_on(start, k, count)) {
            assert(scan_forward(dis, start, count, k) == Some(step_on(start, k, count)));
        } else {
            lemma_scan_forward_first(dis, start, count, k + 1);
        }
    }
}

/// The backward scan stops at the first enabled index it meets.
proof fn lemma_scan_backward_first(dis: spec_fn(int) -> bool, start: int, count: int, k: int)
    requires
        0 <= k,
    ensures
        scan_backward(dis, start, count, k) matches Some(t) ==> exists|m: int|
            k <= m < count && t == #[trigger] step_back(start, m, count) && forall|q: int|
                k <= q < m ==> dis(#[trigger] step_back(start, q, count)),
    decreases count - k,
{
    if k < count && count > 0 {
        if !dis(step_back(start, k, count)) {
            assert(scan_backward(dis, start, count, k) == Some(step_back(start, k, count)));
        } else {
            lemma_scan_backward_first(dis, start, count, k + 1);
        }
    }
}

/// Moving to the next item from a focused item lands on the first enabled item
/// after it, wrapping round: `d` places on (the item itself at the most, a
/// full turn), with every item passed disabled. Moving to the previous item
/// lands likewise on the first enabled item before it.
pub proof fn law_next_previous_nearest(dis: spec_fn(int) -> bool, nav: SelectableNavigation, count: int)
    requires
        nav.focused() matches Some(f) && f < count,
    ensures
        ({
            let f = nav.focused().unwrap() as int;
            &&& nav_target(NavAction::Next, dis, nav, count) matches Some(t) ==> exists|d: int|
                1 <= d <= count && t == #[trigger] step_on(f, d, count) && forall|k: int|
                    1 <= k < d ==> dis(#[trigger] step_on(f, k, count))
            &&& nav_target(NavAction::Previous, dis, nav, count) matches Some(t) ==> exists|d: int|
                1 <= d <= count && t == #[trigger] step_back(f, d, count) && forall|k: int|
                    1 <= k < d ==> dis(#[trigger] step_back(f, k, count))
        }),
{
    let f = nav.focused().unwrap() as int;
    lemma_scan_forward_first(dis, f + 1, count, 0);
    if let Some(t) = nav_target(NavAction::Next, dis, nav, count) {
        let m = choose|m: int| 0 <= m < count && t == #[trigger] step_on(f + 1, m, count) && forall|q: int|
            0 <= q < m ==> dis(#[trigger] step_on(f + 1, q, count));
        assert(t == step_on(f, m + 1, count));
        assert forall|k: int| 1 <= k < m + 1 implies dis(#[trigger] step_on(f, k, count)) by {
            assert(step_on(f + 1, k - 1, count) == step_on(f, k, count));
        }
    }
    let start = previous_start(nav.focused(), count);
    lemma_scan_backward_first(dis, start, count, 0);
    assert forall|q: int| #[trigger] step_back(start, q, count) == step_back(f, q + 1, count) by {
        if f == 0 {
            vstd::arithmetic::div_mod::lemma_mod_add_multiples_vanish(count - 1 - q, count);
        }
    }
    if let Some(t) = nav_target(NavAction::Previous, dis, nav, count) {
        let m = choose|m: int| 0 <= m < count && t == #[trigger] step_back(start, m, count) && forall|q: int|
            0 <= q < m ==> dis(#[trigger] step_back(start, q, count));
        assert(t == step_back(f, m + 1, count));
        assert forall|k: int| 1 <= k < m + 1 implies dis(#[trigger] step_back(f, k, count)) by {
            assert(step_back(start, k - 1, count) == step_back(f, k, count));
        }
    }
}

} // verus!
