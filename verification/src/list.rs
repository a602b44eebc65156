//! A scrollable list of items with keyboard navigation and single or multiple
//! selection.

use vstd::prelude::*;
use crate::choice::{cells16, widest};
use crate::event::{Event, EventResult, KeyCode, MouseButton, MouseEventKind, Widget};
use crate::handler::{handler_ready, Handler};
use crate::layout::{Constraints, ConstraintsView};
use crate::navigation::{law_nav_target_local, agree_below, first_up, nav_fits, nav_target, navigate, DisabledItems, NavAction, SelectableNavigation};
use crate::style::{make_style, merged, styled, Style};
use crate::select::{truncate_text, truncated};
use crate::text::{owned, push_char};
use crate::theme::Theme;
use crate::width::{str_width, text_width};

verus! {

/// What a selection change reports: the selected values (in selection order),
/// the focused index and the scroll offset.
#[derive(Debug, Clone)]
pub struct SelectionEvent<T: Clone> {
    pub selected_values: Vec<T>,
    pub focused_index: Option<usize>,
    pub scroll_offset: usize,
}

/// How many items can be selected.
#[derive(Debug, Clone, Copy, PartialEq, Eq, Structural)]
pub enum SelectionMode {
    /// Nothing can be selected (navigation only)
    Off,
    /// At most one item
    Single,
    /// Any number of items
    Multiple,
}

impl Default for SelectionMode {
    fn default() -> (m: Self)
        ensures
            m == SelectionMode::Single,
    {
        SelectionMode::Single
    }
}

/// An item of a list.
#[derive(Debug, Clone)]
pub struct ListItem<T: Clone> {
    /// The value the item stands for
    pub value: T,
    /// The text shown
    pub label: String,
    /// A disabled item can be neither focused nor selected
    pub disabled: bool,
    /// A divider line is drawn below the item
    pub divider_below: bool,
}

impl<T: Clone> ListItem<T> {
    /// An enabled item without divider.
    pub fn new(value: T, label: &str) -> (i: Self)
        ensures
            i.value == value,
            i.label@ == label@,
            !i.disabled,
            !i.divider_below,
    {
        ListItem { value, label: owned(label), disabled: false, divider_below: false }
    }

    pub fn disabled(self, disabled: bool) -> (i: Self)
        ensures
            i == (ListItem { disabled, ..self }),
    {
        ListItem { disabled, ..self }
    }

    pub fn with_divider(self) -> (i: Self)
        ensures
            i == (ListItem { divider_below: true, ..self }),
    {
        ListItem { divider_below: true, ..self }
    }
}

/// Which items are disabled.
pub open spec fn item_off<T: Clone>(items: Seq<ListItem<T>>) -> spec_fn(int) -> bool {
    |i: int| items[i].disabled
}

/// The items of a list answer which of them are disabled.
pub struct ItemFlags<'a, T: Clone> {
    pub items: &'a Vec<ListItem<T>>,
}

impl<'a, T: Clone> DisabledItems for ItemFlags<'a, T> {
    open spec fn off(&self, i: int) -> bool {
        self.items@[i].disabled
    }

    open spec fn can_ask(&self, i: int) -> bool {
        0 <= i < self.items@.len()
    }

    fn is_off(&self, i: usize) -> (b: bool) {
        self.items[i].disabled
    }
}

/// The number of items with a divider below them.
pub open spec fn divider_count<T: Clone>(items: Seq<ListItem<T>>) -> nat
    decreases items.len(),
{
    if items.len() == 0 {
        0
    } else {
        divider_count(items.drop_last()) + if items.last().divider_below {
            1nat
        } else {
            0nat
        }
    }
}

/// The rows the items take: one each, plus one per divider.
pub open spec fn total_rows<T: Clone>(items: Seq<ListItem<T>>) -> nat {
    items.len() + divider_count(items)
}

/// The first position of `x` in `s` (or `s.len()`).
pub open spec fn first_pos(s: Seq<usize>, x: usize) -> int
    decreases s.len(),
{
    if s.len() == 0 {
        0
    } else if s[0] == x {
        0
    } else {
        1 + first_pos(s.drop_first(), x)
    }
}

/// The selection after toggling item `f`.
pub open spec fn toggled(sel: Seq<usize>, mode: SelectionMode, f: usize) -> Seq<usize> {
    match mode {
        SelectionMode::Single => if sel.contains(f) {
            Seq::empty()
        } else {
            seq![f]
        },
        SelectionMode::Multiple => if sel.contains(f) {
            sel.remove(first_pos(sel, f))
        } else {
            sel.push(f)
        },
        SelectionMode::Off => sel,
    }
}

/// In single selection, toggling keeps at most one item selected: an item not
/// selected before becomes the only one selected, and toggling the selected
/// item leaves nothing selected. Without selection nothing changes.
pub proof fn law_single_selection_holds_one(sel: Seq<usize>, f: usize)
    ensures
        toggled(sel, SelectionMode::Single, f).len() <= 1,
        !sel.contains(f) ==> toggled(sel, SelectionMode::Single, f).len() == 1 && toggled(sel, SelectionMode::Single, f)[0] == f,
        sel.contains(f) ==> toggled(sel, SelectionMode::Single, f).len() == 0,
        toggled(sel, SelectionMode::Off, f) == sel,
{
}

/// In multiple selection, toggling an item not selected adds it and keeps
/// every other selected item; toggling a selected item (each item selected at
/// most once) drops it and keeps every other one.
pub proof fn law_multiple_selection_toggles_one(sel: Seq<usize>, f: usize)
    requires
        forall|a: int, b: int| 0 <= a < b < sel.len() ==> sel[a] != sel[b],
    ensures
        ({
            let t = toggled(sel, SelectionMode::Multiple, f);
            &&& !sel.contains(f) ==> t.len() == sel.len() + 1 && t.contains(f)
            &&& sel.contains(f) ==> t.len() == sel.len() - 1 && !t.contains(f)
            &&& forall|x: usize| x != f ==> (t.contains(x) <==> sel.contains(x))
        }),
{
    let t = toggled(sel, SelectionMode::Multiple, f);
    if sel.contains(f) {
        lemma_first_pos_found(sel, f);
        let p = first_pos(sel, f);
        assert(sel[p] == f);
        assert forall|x: usize| x != f implies (t.contains(x) <==> sel.contains(x)) by {
            if t.contains(x) {
                let j = choose|j: int| 0 <= j < t.len() && t[j] == x;
                if j < p {
                    assert(sel[j] == x);
                } else {
                    assert(sel[j + 1] == x);
                }
            }
            if sel.contains(x) {
                let j = choose|j: int| 0 <= j < sel.len() && sel[j] == x;
                if j < p {
                    assert(t[j] == x);
                } else {
                    assert(j != p);
                    assert(t[j - 1] == x);
                }
            }
        }
        if t.contains(f) {
            let j = choose|j: int| 0 <= j < t.len() && t[j] == f;
            if j < p {
                assert(sel[j] == f);
            } else {
                assert(sel[j + 1] == f);
            }
        }
    } else {
        assert(t[sel.len() as int] == f);
        assert forall|x: usize| x != f implies (t.contains(x) <==> sel.contains(x)) by {
            if t.contains(x) {
                let j = choose|j: int| 0 <= j < t.len() && t[j] == x;
                assert(sel[j] == x);
            }
            if sel.contains(x) {
                let j = choose|j: int| 0 <= j < sel.len() && sel[j] == x;
                assert(t[j] == x);
            }
        }
    }
}

/// The first position of an item in a selection holding it is where it is.
proof fn lemma_first_pos_found(sel: Seq<usize>, f: usize)
    requires
        sel.contains(f),
    ensures
        0 <= first_pos(sel, f) < sel.len(),
        sel[first_pos(sel, f)] == f,
    decreases sel.len(),
{
    if sel[0] != f {
        let j = choose|j: int| 0 <= j < sel.len() && sel[j] == f;
        assert(sel.drop_first()[j - 1] == f);
        lemma_first_pos_found(sel.drop_first(), f);
    }
}

/// In multiple selection, toggling a row that is not selected twice gives back
/// the selection.
pub proof fn law_toggle_twice(sel: Seq<usize>, f: usize)
    requires
        !sel.contains(f),
    ensures
        toggled(toggled(sel, SelectionMode::Multiple, f), SelectionMode::Multiple, f) == sel,
{
    let s1 = sel.push(f);
    assert(s1.contains(f)) by {
        assert(s1[sel.len() as int] == f);
    }
    lemma_first_pos_last(sel, f);
    assert(s1.remove(sel.len() as int) =~= sel);
}

/// The first position of `f` in `sel` pushed with `f` is the end of `sel`,
/// when `sel` does not hold `f`.
pub proof fn lemma_first_pos_last(sel: Seq<usize>, f: usize)
    requires
        !sel.contains(f),
    ensures
        first_pos(sel.push(f), f) == sel.len(),
    decreases sel.len(),
{
    if sel.len() > 0 {
        assert(sel.push(f).drop_first() =~= sel.drop_first().push(f));
        assert(!sel.drop_first().contains(f)) by {
            if sel.drop_first().contains(f) {
                let j = choose|j: int| 0 <= j < sel.drop_first().len() && sel.drop_first()[j] == f;
                assert(sel[j + 1] == f);
            }
        }
        assert(sel[0] != f) by {
            if sel[0] == f {
                assert(sel.contains(f));
            }
        }
        lemma_first_pos_last(sel.drop_first(), f);
    }
}


/// The indices of `idx` that name an enabled item, in order.
pub open spec fn valid_selection<T: Clone>(idx: Seq<usize>, items: Seq<ListItem<T>>) -> Seq<usize>
    decreases idx.len(),
{
    if idx.len() == 0 {
        Seq::empty()
    } else {
        let rest = valid_selection(idx.drop_last(), items);
        if idx.last() < items.len() && !items[idx.last() as int].disabled {
            rest.push(idx.last())
        } else {
            rest
        }
    }
}

/// `e` reports selection `sel` of `items` (each value a clone) and navigation `nav`.
pub open spec fn reports<T: Clone>(e: SelectionEvent<T>, items: Seq<ListItem<T>>, sel: Seq<usize>, nav: SelectableNavigation) -> bool {
    &&& e.selected_values@.len() == sel.len()
    &&& forall|k: int| 0 <= k < sel.len() ==> cloned(items[sel[k] as int].value, #[trigger] e.selected_values@[k])
    &&& e.focused_index == nav.focused()
    &&& e.scroll_offset == nav.offset()
}

/// What the select callback gives for a selection change: one message for an
/// event reporting the selection, or none without a callback.
pub open spec fn select_fired<T: Clone, M>(
    h: Option<Box<dyn Handler<(SelectionEvent<T>,), M>>>,
    items: Seq<ListItem<T>>,
    sel: Seq<usize>,
    nav: SelectableNavigation,
    out: Seq<M>,
) -> bool {
    match h {
        Some(f) => out.len() == 1 && exists|e: SelectionEvent<T>| reports(e, items, sel, nav) && #[trigger] f.gives((e,), out[0]),
        None => out.len() == 0,
    }
}

/// What an event does to a list.
pub enum ListStep {
    Ignore,
    Move(NavAction),
    Toggle,
}

/// Arrows, Home, End and the page keys (and the wheel) move focus; Enter, Space
/// and a left click toggle the focused item's selection.
pub open spec fn list_step(ev: Event) -> ListStep {
    match ev {
        Event::Key(k) => match k.code {
            KeyCode::Down => ListStep::Move(NavAction::Next),
            KeyCode::Up => ListStep::Move(NavAction::Previous),
            KeyCode::Home => ListStep::Move(NavAction::First),
            KeyCode::End => ListStep::Move(NavAction::Last),
            KeyCode::PageDown => ListStep::Move(NavAction::PageDown),
            KeyCode::PageUp => ListStep::Move(NavAction::PageUp),
            KeyCode::Enter => ListStep::Toggle,
            KeyCode::Char(c) => if c == ' ' {
                ListStep::Toggle
            } else {
                ListStep::Ignore
            },
            _ => ListStep::Ignore,
        },
        Event::Mouse(m) => match m.kind {
            MouseEventKind::Down(MouseButton::Left) => ListStep::Toggle,
            MouseEventKind::ScrollDown => ListStep::Move(NavAction::Next),
            MouseEventKind::ScrollUp => ListStep::Move(NavAction::Previous),
            _ => ListStep::Ignore,
        },
        _ => ListStep::Ignore,
    }
}

/// The label widths of the items, in columns.
pub open spec fn item_widths<T: Clone>(items: Seq<ListItem<T>>) -> Seq<nat> {
    items.map_values(|it: ListItem<T>| text_width(it.label@))
}

/// The styles a list draws its items with.
#[derive(Debug, Clone, Copy)]
pub struct ItemStyles {
    pub normal: Style,
    pub focused: Style,
    pub selected: Style,
    pub disabled: Style,
    pub divider: Style,
    pub scrollbar_track: Style,
    pub scrollbar_thumb: Style,
}

/// The item styles under `theme` with the given custom styles: the custom
/// normal style or the theme's text; the custom focus and selected styles over
/// the theme's focus and primary backgrounds; muted disabled items; border
/// colored dividers and scrollbar track; an info colored scrollbar thumb.
pub open spec fn item_styles_for(custom: Option<Style>, focus: Option<Style>, selected: Option<Style>, theme: Theme) -> ItemStyles {
    let c = theme.colors;
    let base_focused = styled(Some(c.text), Some(c.focus_background), false);
    let base_selected = styled(Some(c.text), Some(c.primary), false);
    ItemStyles {
        normal: match custom {
            Some(s) => s,
            None => styled(Some(c.text), None, false),
        },
        focused: match focus {
            Some(s) => merged(s, base_focused),
            None => base_focused,
        },
        selected: match selected {
            Some(s) => merged(s, base_selected),
            None => base_selected,
        },
        disabled: styled(Some(c.text_muted), None, false),
        divider: styled(Some(c.border), None, false),
        scrollbar_track: styled(Some(c.border), None, false),
        scrollbar_thumb: styled(Some(c.info), None, false),
    }
}

/// An interactive list.
#[verifier::reject_recursive_types(T)]
#[verifier::reject_recursive_types(M)]
pub struct List<T: Clone, M = ()> {
    items: Vec<ListItem<T>>,
    selected_indices: Vec<usize>,
    selection_mode: SelectionMode,
    navigation: SelectableNavigation,
    empty_message: String,
    show_scrollbar: bool,
    focused: bool,
    custom_style: Option<Style>,
    custom_focus_style: Option<Style>,
    custom_selected_style: Option<Style>,
    on_select: Option<Box<dyn Handler<(SelectionEvent<T>,), M>>>,
}

impl<T: Clone, M> List<T, M> {
    #[verifier::type_invariant]
    spec fn inv(&self) -> bool {
        &&& handler_ready(self.on_select)
        &&& nav_fits(self.navigation, self.items@.len() as int)
        &&& forall|k: int| 0 <= k < self.selected_indices@.len() ==> #[trigger] self.selected_indices@[k] < self.items@.len()
    }

    pub closed spec fn entries(&self) -> Seq<ListItem<T>> {
        self.items@
    }

    /// The selected indices, in selection order.
    pub closed spec fn selection(&self) -> Seq<usize> {
        self.selected_indices@
    }

    pub closed spec fn mode(&self) -> SelectionMode {
        self.selection_mode
    }

    pub closed spec fn nav(&self) -> SelectableNavigation {
        self.navigation
    }

    pub closed spec fn message(&self) -> Seq<char> {
        self.empty_message@
    }

    pub closed spec fn scrollbar(&self) -> bool {
        self.show_scrollbar
    }

    pub closed spec fn has_focus(&self) -> bool {
        self.focused
    }

    pub closed spec fn custom(&self) -> Option<Style> {
        self.custom_style
    }

    pub closed spec fn custom_focus(&self) -> Option<Style> {
        self.custom_focus_style
    }

    pub closed spec fn custom_selected(&self) -> Option<Style> {
        self.custom_selected_style
    }

    pub closed spec fn select_handler(&self) -> Option<Box<dyn Handler<(SelectionEvent<T>,), M>>> {
        self.on_select
    }

    /// The items, mode, message, scrollbar flag, styles and callback are as in
    /// `other`.
    pub open spec fn same_setup(&self, other: &Self) -> bool {
        &&& self.entries() == other.entries()
        &&& self.mode() == other.mode()
        &&& self.message() == other.message()
        &&& self.scrollbar() == other.scrollbar()
        &&& self.custom() == other.custom()
        &&& self.custom_focus() == other.custom_focus()
        &&& self.custom_selected() == other.custom_selected()
        &&& self.select_handler() == other.select_handler()
    }

    /// Everything but the items and the focus is as in `other`.
    pub open spec fn same_but_items(&self, other: &Self) -> bool {
        &&& self.selection() == other.selection()
        &&& self.mode() == other.mode()
        &&& self.nav().offset() == other.nav().offset()
        &&& self.nav().viewport() == other.nav().viewport()
        &&& self.message() == other.message()
        &&& self.scrollbar() == other.scrollbar()
        &&& self.has_focus() == other.has_focus()
        &&& self.custom() == other.custom()
        &&& self.custom_focus() == other.custom_focus()
        &&& self.custom_selected() == other.custom_selected()
        &&& self.select_handler() == other.select_handler()
    }

    /// Index of the first enabled item.
    fn first_enabled(items: &Vec<ListItem<T>>) -> (r: Option<usize>)
        ensures
            (match r {
                Some(i) => Some(i as int),
                None => None,
            }) == first_up(item_off(items@), 0, items@.len() as int),
    {
        let mut i: usize = 0;
        while i < items.len()
            invariant
                i <= items@.len(),
                first_up(item_off(items@), i as int, items@.len() as int) == first_up(
                    item_off(items@),
                    0,
                    items@.len() as int,
                ),
            decreases items@.len() - i,
        {
            if !items[i].disabled {
                return Some(i);
            }
            i = i + 1;
        }
        None
    }

    /// A list of `items` focused on the first enabled one, single selection, a
    /// viewport of ten rows, the message `No items` and a scrollbar (no machine
    /// holds more items than the bound).
    pub fn new(items: Vec<ListItem<T>>) -> (l: Self)
        requires
            items@.len() <= usize::MAX / 2,
        ensures
            l.entries() == items@,
            l.selection().len() == 0,
            l.mode() == SelectionMode::Single,
            l.nav().focused() == (match first_up(item_off(items@), 0, items@.len() as int) {
                Some(i) => Some(i as usize),
                None => None,
            }),
            l.nav().offset() == 0,
            l.nav().viewport() == 10,
            l.message() == seq!['N', 'o', ' ', 'i', 't', 'e', 'm', 's'],
            l.scrollbar(),
            !l.has_focus(),
            l.custom().is_none() && l.custom_focus().is_none() && l.custom_selected().is_none(),
            l.select_handler().is_none(),
    {
        let first = Self::first_enabled(&items);
        proof {
            crate::navigation::law_first_up(item_off(items@), 0, items@.len() as int);
            reveal_strlit("No items");
            assert("No items"@ =~= seq!['N', 'o', ' ', 'i', 't', 'e', 'm', 's']);
        }
        let navigation = SelectableNavigation::with_initial_focus(items.len(), 10, first);
        List {
            items,
            selected_indices: Vec::new(),
            selection_mode: SelectionMode::Single,
            navigation,
            empty_message: owned("No items"),
            show_scrollbar: true,
            focused: false,
            custom_style: None,
            custom_focus_style: None,
            custom_selected_style: None,
            on_select: None,
        }
    }

    /// A list without items.
    pub fn empty() -> (l: Self)
        ensures
            l.entries().len() == 0,
            l.selection().len() == 0,
            l.mode() == SelectionMode::Single,
            l.nav().focused().is_none(),
            l.nav().offset() == 0,
            l.nav().viewport() == 10,
            l.message() == seq!['N', 'o', ' ', 'i', 't', 'e', 'm', 's'],
            l.scrollbar(),
            !l.has_focus(),
            l.custom().is_none() && l.custom_focus().is_none() && l.custom_selected().is_none(),
            l.select_handler().is_none(),
    {
        Self::new(Vec::new())
    }

    /// Appends `item`; it takes the focus when no item has it and it is enabled.
    fn push_item(self, item: ListItem<T>, take_focus: bool) -> (l: Self)
        requires
            self.entries().len() < usize::MAX / 2,
        ensures
            l.entries() == self.entries().push(item),
            l.nav().focused() == if self.nav().focused().is_none() && take_focus {
                Some(self.entries().len() as usize)
            } else {
                self.nav().focused()
            },
            l.same_but_items(&self),
    {
        proof { use_type_invariant(&self); }
        let mut l = self;
        let mut items = l.items;
        items.push(item);
        let mut nav = l.navigation;
        if nav.focused_index().is_none() && take_focus {
            nav.set_focused_index(Some(items.len() - 1));
        }
        List { items, navigation: nav, ..l }
    }

    /// Appends an enabled item; it takes the focus when no item has it.
    pub fn item(self, value: T, label: &str) -> (l: Self)
        requires
            self.entries().len() < usize::MAX / 2,
        ensures
            l.entries().len() == self.entries().len() + 1,
            l.entries().take(self.entries().len() as int) == self.entries(),
            l.entries().last().value == value && l.entries().last().label@ == label@,
            !l.entries().last().disabled && !l.entries().last().divider_below,
            l.nav().focused() == if self.nav().focused().is_none() {
                Some(self.entries().len() as usize)
            } else {
                self.nav().focused()
            },
            l.same_but_items(&self),
    {
        let it = ListItem::new(value, label);
        let l = self.push_item(it, true);
        proof {
            assert(l.entries().take(self.entries().len() as int) =~= self.entries());
        }
        l
    }

    /// Appends a disabled item.
    pub fn item_disabled(self, value: T, label: &str) -> (l: Self)
        requires
            self.entries().len() < usize::MAX / 2,
        ensures
            l.entries().len() == self.entries().len() + 1,
            l.entries().take(self.entries().len() as int) == self.entries(),
            l.entries().last().value == value && l.entries().last().label@ == label@,
            l.entries().last().disabled && !l.entries().last().divider_below,
            l.nav().focused() == self.nav().focused(),
            l.same_but_items(&self),
    {
        let it = ListItem::new(value, label).disabled(true);
        let l = self.push_item(it, false);
        proof {
            assert(l.entries().take(self.entries().len() as int) =~= self.entries());
        }
        l
    }

    /// Appends an enabled item with a divider below; it takes the focus when no
    /// item has it.
    pub fn item_with_divider(self, value: T, label: &str) -> (l: Self)
        requires
            self.entries().len() < usize::MAX / 2,
        ensures
            l.entries().len() == self.entries().len() + 1,
            l.entries().take(self.entries().len() as int) == self.entries(),
            l.entries().last().value == value && l.entries().last().label@ == label@,
            !l.entries().last().disabled && l.entries().last().divider_below,
            l.nav().focused() == if self.nav().focused().is_none() {
                Some(self.entries().len() as usize)
            } else {
                self.nav().focused()
            },
            l.same_but_items(&self),
    {
        let it = ListItem::new(value, label).with_divider();
        let l = self.push_item(it, true);
        proof {
            assert(l.entries().take(self.entries().len() as int) =~= self.entries());
        }
        l
    }

    /// Appends `items` in order; the first enabled one takes the focus when no
    /// item has it.
    pub fn items(self, items: Vec<ListItem<T>>) -> (l: Self)
        requires
            self.entries().len() + items@.len() <= usize::MAX / 2,
        ensures
            l.entries() == self.entries() + items@,
            l.nav().focused() == if self.nav().focused().is_none() {
                match first_up(item_off(items@), 0, items@.len() as int) {
                    Some(j) => Some((self.entries().len() + j) as usize),
                    None => None,
                }
            } else {
                self.nav().focused()
            },
            l.same_but_items(&self),
    {
        let ghost start = self.entries();
        let ghost had = self.nav().focused();
        let ghost all = items@;
        let mut l = self;
        let mut rest = items;
        let mut i: usize = 0;
        proof {
            crate::navigation::law_first_up(item_off(all), 0, all.len() as int);
        }
        while rest.len() > 0
            invariant
                i + rest@.len() == all.len(),
                rest@ == all.skip(i as int),
                start.len() + all.len() <= usize::MAX / 2,
                l.entries() == start + all.take(i as int),
                l.same_but_items(&self),
                had.is_some() ==> l.nav().focused() == had,
                had.is_none() ==> l.nav().focused() == (match first_up(item_off(all), 0, i as int) {
                    Some(j) => Some((start.len() + j) as usize),
                    None => None,
                }),
                first_up(item_off(all), 0, all.len() as int) == (if first_up(item_off(all), 0, i as int).is_some() {
                    first_up(item_off(all), 0, i as int)
                } else {
                    first_up(item_off(all), i as int, all.len() as int)
                }),
            decreases rest@.len(),
        {
            let it = rest.remove(0);
            let enabled = !it.disabled;
            proof {
                assert(it == all[i as int]);
                lemma_first_up_step(item_off(all), i as int, all.len() as int);
            }
            l = l.push_item(it, enabled);
            i = i + 1;
            proof {
                assert(l.entries() =~= start + all.take(i as int));
                assert(rest@ =~= all.skip(i as int));
            }
        }
        proof {
            assert(all.take(all.len() as int) =~= all);
        }
        l
    }

    pub fn selection_mode(self, mode: SelectionMode) -> (l: Self)
        ensures
            l.mode() == mode,
            l.entries() == self.entries() && l.selection() == self.selection(),
            l.nav() == self.nav() && l.message() == self.message() && l.scrollbar() == self.scrollbar(),
            l.has_focus() == self.has_focus() && l.custom() == self.custom(),
            l.custom_focus() == self.custom_focus() && l.custom_selected() == self.custom_selected(),
            l.select_handler() == self.select_handler(),
    {
        proof { use_type_invariant(&self); }
        List { selection_mode: mode, ..self }
    }

    /// Focuses item `index` and scrolls it into view; ignored unless it names an
    /// enabled item.
    pub fn focused_index(self, index: Option<usize>) -> (l: Self)
        ensures
            (index matches Some(i) && i < self.entries().len() && !self.entries()[i as int].disabled)
                ==> SelectableNavigation::focus_moved(self.nav(), l.nav(), index.unwrap() as int),
            !(index matches Some(i) && i < self.entries().len() && !self.entries()[i as int].disabled)
                ==> l.nav() == self.nav(),
            l.same_setup(&self),
            l.selection() == self.selection() && l.has_focus() == self.has_focus(),
    {
        proof { use_type_invariant(&self); }
        if let Some(idx) = index {
            if idx < self.items.len() && !self.items[idx].disabled {
                let mut nav = self.navigation;
                nav.set_focused_index(Some(idx));
                nav.ensure_visible(self.items.len());
                return List { navigation: nav, ..self };
            }
        }
        self
    }

    /// Scrolls to `offset`, at most to the last item.
    pub fn scroll_offset(self, offset: usize) -> (l: Self)
        ensures
            l.nav().offset() == if offset < self.entries().len() {
                offset as int
            } else if self.entries().len() > 0 {
                self.entries().len() - 1
            } else {
                0
            },
            l.nav().focused() == self.nav().focused(),
            l.nav().viewport() == self.nav().viewport(),
            l.same_setup(&self),
            l.selection() == self.selection() && l.has_focus() == self.has_focus(),
    {
        proof { use_type_invariant(&self); }
        let max_offset = if self.items.len() > 0 {
            self.items.len() - 1
        } else {
            0
        };
        let o = if offset < max_offset {
            offset
        } else {
            max_offset
        };
        let mut nav = self.navigation;
        nav.set_scroll_offset(o);
        List { navigation: nav, ..self }
    }

    pub fn get_focused_index(&self) -> (r: Option<usize>)
        ensures
            r == self.nav().focused(),
    {
        self.navigation.focused_index()
    }

    pub fn get_scroll_offset(&self) -> (r: usize)
        ensures
            r == self.nav().offset(),
    {
        self.navigation.scroll_offset()
    }

    /// Sets the rows shown at once; with none, moving the focus below the
    /// offset leaves the offset where it is (see `visible_offset`).
    pub fn viewport_height(self, height: u16) -> (l: Self)
        ensures
            l.nav().viewport() == height,
            l.nav().focused() == self.nav().focused(),
            l.nav().offset() == self.nav().offset(),
            l.same_setup(&self),
            l.selection() == self.selection() && l.has_focus() == self.has_focus(),
    {
        proof { use_type_invariant(&self); }
        let mut nav = self.navigation;
        nav.set_viewport_size(height as usize);
        List { navigation: nav, ..self }
    }

    /// Sets the message shown when there are no items.
    pub fn empty_message(self, message: &str) -> (l: Self)
        ensures
            l.message() == message@,
            l.entries() == self.entries() && l.mode() == self.mode() && l.scrollbar() == self.scrollbar(),
            l.custom() == self.custom() && l.custom_focus() == self.custom_focus(),
            l.custom_selected() == self.custom_selected() && l.select_handler() == self.select_handler(),
            l.nav() == self.nav() && l.selection() == self.selection() && l.has_focus() == self.has_focus(),
    {
        proof { use_type_invariant(&self); }
        List { empty_message: owned(message), ..self }
    }

    pub fn show_scrollbar(self, show: bool) -> (l: Self)
        ensures
            l.scrollbar() == show,
            l.entries() == self.entries() && l.mode() == self.mode() && l.message() == self.message(),
            l.custom() == self.custom() && l.custom_focus() == self.custom_focus(),
            l.custom_selected() == self.custom_selected() && l.select_handler() == self.select_handler(),
            l.nav() == self.nav() && l.selection() == self.selection() && l.has_focus() == self.has_focus(),
    {
        proof { use_type_invariant(&self); }
        List { show_scrollbar: show, ..self }
    }

    /// Selects the given indices, dropping those that name no enabled item.
    pub fn selected(self, indices: Vec<usize>) -> (l: Self)
        ensures
            l.selection() == valid_selection(indices@, self.entries()),
            l.same_setup(&self),
            l.nav() == self.nav() && l.has_focus() == self.has_focus(),
    {
        proof { use_type_invariant(&self); }
        let mut sel: Vec<usize> = Vec::new();
        let mut i: usize = 0;
        while i < indices.len()
            invariant
                i <= indices@.len(),
                sel@ == valid_selection(indices@.take(i as int), self.items@),
                forall|k: int| 0 <= k < sel@.len() ==> #[trigger] sel@[k] < self.items@.len(),
            decreases indices@.len() - i,
        {
            let idx = indices[i];
            proof {
                assert(indices@.take(i as int + 1).drop_last() =~= indices@.take(i as int));
            }
            if idx < self.items.len() && !self.items[idx].disabled {
                sel.push(idx);
            }
            i = i + 1;
        }
        proof {
            assert(indices@.take(indices@.len() as int) =~= indices@);
        }
        List { selected_indices: sel, ..self }
    }

    /// Sets the callback called with each selection change.
    pub fn on_select<F: Fn(SelectionEvent<T>) -> M + 'static>(self, handler: F) -> (l: Self)
        requires
            forall|a: (SelectionEvent<T>,)| call_requires(handler, a),
        ensures
            l.select_handler().is_some(),
            forall|a: (SelectionEvent<T>,), m: M| l.select_handler().unwrap().gives(a, m) == call_ensures(handler, a, m),
            l.entries() == self.entries() && l.mode() == self.mode() && l.message() == self.message(),
            l.scrollbar() == self.scrollbar(),
            l.custom() == self.custom() && l.custom_focus() == self.custom_focus(),
            l.custom_selected() == self.custom_selected(),
            l.nav() == self.nav() && l.selection() == self.selection() && l.has_focus() == self.has_focus(),
    {
        proof { use_type_invariant(&self); }
        let h: Box<dyn Handler<(SelectionEvent<T>,), M>> = Box::new(handler);
        List {
            items: self.items,
            selected_indices: self.selected_indices,
            selection_mode: self.selection_mode,
            navigation: self.navigation,
            empty_message: self.empty_message,
            show_scrollbar: self.show_scrollbar,
            focused: self.focused,
            custom_style: self.custom_style,
            custom_focus_style: self.custom_focus_style,
            custom_selected_style: self.custom_selected_style,
            on_select: Some(h),
        }
    }

    /// Sets the style of items at rest (in place of the theme's text color).
    pub fn style(self, style: Style) -> (l: Self)
        ensures
            l.custom() == Some(style),
            l.entries() == self.entries() && l.mode() == self.mode() && l.message() == self.message(),
            l.scrollbar() == self.scrollbar() && l.custom_focus() == self.custom_focus(),
            l.custom_selected() == self.custom_selected() && l.select_handler() == self.select_handler(),
            l.nav() == self.nav() && l.selection() == self.selection() && l.has_focus() == self.has_focus(),
    {
        proof { use_type_invariant(&self); }
        List { custom_style: Some(style), ..self }
    }

    /// Sets a style merged over the focused item's.
    pub fn focus_style(self, style: Style) -> (l: Self)
        ensures
            l.custom_focus() == Some(style),
            l.entries() == self.entries() && l.mode() == self.mode() && l.message() == self.message(),
            l.scrollbar() == self.scrollbar() && l.custom() == self.custom(),
            l.custom_selected() == self.custom_selected() && l.select_handler() == self.select_handler(),
            l.nav() == self.nav() && l.selection() == self.selection() && l.has_focus() == self.has_focus(),
    {
        proof { use_type_invariant(&self); }
        List { custom_focus_style: Some(style), ..self }
    }

    /// Sets a style merged over the selected items'.
    pub fn selected_style(self, style: Style) -> (l: Self)
        ensures
            l.custom_selected() == Some(style),
            l.entries() == self.entries() && l.mode() == self.mode() && l.message() == self.message(),
            l.scrollbar() == self.scrollbar() && l.custom() == self.custom(),
            l.custom_focus() == self.custom_focus() && l.select_handler() == self.select_handler(),
            l.nav() == self.nav() && l.selection() == self.selection() && l.has_focus() == self.has_focus(),
    {
        proof { use_type_invariant(&self); }
        List { custom_selected_style: Some(style), ..self }
    }

    /// The item styles under `theme`.
    pub fn get_item_styles(&self, theme: &Theme) -> (s: ItemStyles)
        ensures
            s == item_styles_for(self.custom(), self.custom_focus(), self.custom_selected(), *theme),
            s.normal == match self.custom() {
                Some(c) => c,
                None => styled(Some(theme.colors.text), None, false),
            },
            s.focused == match self.custom_focus() {
                Some(c) => merged(c, styled(Some(theme.colors.text), Some(theme.colors.focus_background), false)),
                None => styled(Some(theme.colors.text), Some(theme.colors.focus_background), false),
            },
            s.selected == match self.custom_selected() {
                Some(c) => merged(c, styled(Some(theme.colors.text), Some(theme.colors.primary), false)),
                None => styled(Some(theme.colors.text), Some(theme.colors.primary), false),
            },
            s.disabled == styled(Some(theme.colors.text_muted), None, false),
            s.divider == styled(Some(theme.colors.border), None, false),
            s.scrollbar_track == styled(Some(theme.colors.border), None, false),
            s.scrollbar_thumb == styled(Some(theme.colors.info), None, false),
    {
        let c = &theme.colors;
        let normal = match self.custom_style {
            Some(s) => s,
            None => make_style(Some(c.text), None, false),
        };
        let base_focused = make_style(Some(c.text), Some(c.focus_background), false);
        let focused = match self.custom_focus_style {
            Some(s) => s.merge(base_focused),
            None => base_focused,
        };
        let base_selected = make_style(Some(c.text), Some(c.primary), false);
        let selected = match self.custom_selected_style {
            Some(s) => s.merge(base_selected),
            None => base_selected,
        };
        ItemStyles {
            normal,
            focused,
            selected,
            disabled: make_style(Some(c.text_muted), None, false),
            divider: make_style(Some(c.border), None, false),
            scrollbar_track: make_style(Some(c.border), None, false),
            scrollbar_thumb: make_style(Some(c.info), None, false),
        }
    }

    /// The style of one item: disabled, else selected, else focused (while the
    /// list has focus), else normal.
    pub fn select_item_style(&self, styles: &ItemStyles, is_disabled: bool, is_focused: bool, is_selected: bool) -> (s: Style)
        ensures
            s == if is_disabled {
                styles.disabled
            } else if is_selected {
                styles.selected
            } else if is_focused && self.has_focus() {
                styles.focused
            } else {
                styles.normal
            },
    {
        if is_disabled {
            styles.disabled
        } else if is_selected {
            styles.selected
        } else if is_focused && self.focused {
            styles.focused
        } else {
            styles.normal
        }
    }

    /// The rows the items take, dividers included.
    pub fn calculate_total_rows(&self) -> (r: usize)
        ensures
            r == total_rows(self.entries()),
    {
        proof { use_type_invariant(self); }
        let mut dividers: usize = 0;
        let mut i: usize = 0;
        while i < self.items.len()
            invariant
                i <= self.items@.len(),
                self.items@.len() <= usize::MAX / 2,
                dividers == divider_count(self.items@.take(i as int)),
                dividers <= i,
            decreases self.items@.len() - i,
        {
            proof {
                assert(self.items@.take(i as int + 1).drop_last() =~= self.items@.take(i as int));
            }
            if self.items[i].divider_below {
                dividers = dividers + 1;
            }
            i = i + 1;
        }
        proof {
            assert(self.items@.take(self.items@.len() as int) =~= self.items@);
        }
        self.items.len() + dividers
    }

    /// The callback's message for the current selection.
    pub fn emit_selection(&self) -> (out: Vec<M>)
        ensures
            select_fired(self.select_handler(), self.entries(), self.selection(), self.nav(), out@),
    {
        proof { use_type_invariant(self); }
        match &self.on_select {
            Some(h) => {
                let mut values: Vec<T> = Vec::new();
                let mut k: usize = 0;
                while k < self.selected_indices.len()
                    invariant
                        k <= self.selected_indices@.len(),
                        forall|j: int| 0 <= j < self.selected_indices@.len() ==> #[trigger] self.selected_indices@[j] < self.items@.len(),
                        values@.len() == k,
                        forall|j: int| 0 <= j < k ==> cloned(self.items@[self.selected_indices@[j] as int].value, #[trigger] values@[j]),
                    decreases self.selected_indices@.len() - k,
                {
                    let idx = self.selected_indices[k];
                    let v = self.items[idx].value.clone();
                    values.push(v);
                    k = k + 1;
                }
                let event = SelectionEvent {
                    selected_values: values,
                    focused_index: self.navigation.focused_index(),
                    scroll_offset: self.navigation.scroll_offset(),
                };
                let ghost e = event;
                let m = h.call((event,));
                let mut out = Vec::new();
                out.push(m);
                proof {
                    assert(reports(e, self.items@, self.selected_indices@, self.navigation));
                    assert(h.gives((e,), out@[0]));
                }
                out
            },
            None => Vec::new(),
        }
    }

    /// Toggles the focused item's selection (one item in single mode, any number
    /// in multiple mode) and gives the callback's message; nothing happens
    /// without selection, without focus or on a disabled item.
    pub fn toggle_selection(&mut self) -> (out: Vec<M>)
        ensures
            final(self).same_setup(old(self)),
            final(self).nav() == old(self).nav(),
            final(self).has_focus() == old(self).has_focus(),
            ({
                let f = old(self).nav().focused();
                if old(self).mode() == SelectionMode::Off || f.is_none() || old(self).entries()[f.unwrap() as int].disabled {
                    final(self).selection() == old(self).selection() && out@.len() == 0
                } else {
                    final(self).selection() == toggled(old(self).selection(), old(self).mode(), f.unwrap())
                        && select_fired(
                        old(self).select_handler(),
                        old(self).entries(),
                        final(self).selection(),
                        old(self).nav(),
                        out@,
                    )
                }
            }),
    {
        proof { use_type_invariant(&*self); }
        if let SelectionMode::Off = self.selection_mode {
            return Vec::new();
        }
        let focused_idx = match self.navigation.focused_index() {
            Some(i) => i,
            None => {
                return Vec::new();
            },
        };
        if self.items[focused_idx].disabled {
            return Vec::new();
        }
        let pos = find_pos(&self.selected_indices, focused_idx);
        let mut sel = self.selected_indices.clone();
        proof {
            assert(sel@ =~= self.selected_indices@);
        }
        match self.selection_mode {
            SelectionMode::Single => {
                if pos < sel.len() {
                    sel = Vec::new();
                } else {
                    sel = Vec::new();
                    sel.push(focused_idx);
                }
            },
            SelectionMode::Multiple => {
                if pos < sel.len() {
                    sel.remove(pos);
                } else {
                    sel.push(focused_idx);
                }
            },
            SelectionMode::Off => {},
        }
        proof {
            let old_sel = old(self).selected_indices@;
            assert(sel@ =~= toggled(old_sel, old(self).selection_mode, focused_idx));
            assert forall|k: int| 0 <= k < sel@.len() implies #[trigger] sel@[k] < self.items@.len() by {
                if old(self).selection_mode == SelectionMode::Multiple && old_sel.contains(focused_idx) {
                    assert(sel@[k] == old_sel.remove(pos as int)[k]);
                    if k < pos {
                        assert(sel@[k] == old_sel[k]);
                    } else {
                        assert(sel@[k] == old_sel[k + 1]);
                    }
                }
            }
        }
        self.selected_indices = sel;
        self.emit_selection()
    }

    /// Performs a focus move over the enabled items.
    fn move_focus(&mut self, action: NavAction)
        ensures
            SelectableNavigation::moved_to(
                old(self).nav(),
                final(self).nav(),
                nav_target(action, item_off(old(self).entries()), old(self).nav(), old(self).entries().len() as int),
            ),
            final(self).same_setup(old(self)),
            final(self).selection() == old(self).selection(),
            final(self).has_focus() == old(self).has_focus(),
    {
        proof { use_type_invariant(&*self); }
        let n = self.items.len();
        let mut nav = self.navigation;
        let flags = ItemFlags { items: &self.items };
        proof {
            assert(agree_below(|i: int| flags.off(i), item_off(self.items@), n as int));
            law_nav_target_local(action, |i: int| flags.off(i), item_off(self.items@), nav, n as int);
        }
        navigate(&mut nav, action, flags, n);
        self.navigation = nav;
    }
}

/// A list row to draw: on line `y`, in `style`, the background filled across
/// the content when `fill`, the indicator at the left and the label after it,
/// and a divider line below when `divider_y` is set.
pub struct ListRow {
    pub y: u16,
    pub style: Style,
    pub fill: bool,
    pub indicator: String,
    pub label_x: u16,
    pub label: String,
    pub divider_y: Option<u16>,
}

/// A list row as plain values.
pub struct ListRowView {
    pub y: u16,
    pub style: Style,
    pub fill: bool,
    pub indicator: Seq<char>,
    pub label_x: u16,
    pub label: Seq<char>,
    pub divider_y: Option<u16>,
}

impl ListRow {
    pub open spec fn view(&self) -> ListRowView {
        ListRowView {
            y: self.y,
            style: self.style,
            fill: self.fill,
            indicator: self.indicator@,
            label_x: self.label_x,
            label: self.label@,
            divider_y: self.divider_y,
        }
    }
}

/// What a list draws: its message centred when empty, else its rows, the
/// content width and whether a scrollbar is drawn.
pub enum ListPlan {
    Message { x: u16, y: u16, message: String, style: Style },
    Rows { rows: Vec<ListRow>, content_width: u16, scrollbar: bool },
}

/// The indicator of an item: a check box in multiple mode, a radio mark in
/// single mode, else an arrow at the focused item of a focused list.
pub open spec fn indicator_of(mode: SelectionMode, selected: bool, focused_here: bool) -> Seq<char> {
    match mode {
        SelectionMode::Multiple => if selected {
            seq!['[', '✓', ']', ' ']
        } else {
            seq!['[', ' ', ']', ' ']
        },
        SelectionMode::Single => if selected {
            seq!['(', '•', ')', ' ']
        } else {
            seq!['(', ' ', ')', ' ']
        },
        SelectionMode::Off => if focused_here {
            seq!['>', ' ']
        } else {
            seq![' ', ' ']
        },
    }
}

/// The row item `i` draws on line `y` with `content` columns.
pub open spec fn list_row_at<T: Clone>(
    items: Seq<ListItem<T>>,
    sel: Seq<usize>,
    focus: Option<usize>,
    has_focus: bool,
    mode: SelectionMode,
    styles: ItemStyles,
    content: u16,
    i: int,
    y: int,
    height: int,
) -> ListRowView {
    let item = items[i];
    let focused_here = focus == Some(i as usize);
    let selected = sel.contains(i as usize);
    let indicator = indicator_of(mode, selected, focused_here && has_focus);
    let iw = (text_width(indicator) % 0x10000) as u16;
    ListRowView {
        y: y as u16,
        style: if item.disabled {
            styles.disabled
        } else if selected {
            styles.selected
        } else if focused_here && has_focus {
            styles.focused
        } else {
            styles.normal
        },
        fill: focused_here || selected,
        indicator,
        label_x: iw,
        label: truncated(item.label@, (if content > iw {
            content - iw
        } else {
            0
        }) as int),
        divider_y: if item.divider_below && y + 1 < height {
            Some((y + 1) as u16)
        } else {
            None
        },
    }
}

/// The rows from item `i` on line `y`, up to item `end` or the bottom line.
pub open spec fn list_rows_from<T: Clone>(
    items: Seq<ListItem<T>>,
    sel: Seq<usize>,
    focus: Option<usize>,
    has_focus: bool,
    mode: SelectionMode,
    styles: ItemStyles,
    content: u16,
    i: int,
    end: int,
    y: int,
    height: int,
) -> Seq<ListRowView>
    decreases end - i,
{
    if i >= end || y >= height {
        Seq::empty()
    } else {
        let r = list_row_at(items, sel, focus, has_focus, mode, styles, content, i, y, height);
        let next_y = if r.divider_y.is_some() {
            y + 2
        } else {
            y + 1
        };
        seq![r] + list_rows_from(items, sel, focus, has_focus, mode, styles, content, i + 1, end, next_y, height)
    }
}

impl<T: Clone, M> List<T, M> {
    /// Whether the list draws a scrollbar in an area `height` lines high.
    pub open spec fn shows_scrollbar(&self, height: u16) -> bool {
        let vp = if height < (self.nav().viewport() % 0x10000) {
            height as int
        } else {
            (self.nav().viewport() % 0x10000) as int
        };
        self.scrollbar() && total_rows(self.entries()) > vp
    }

    /// What the list draws in a `width` by `height` area under `theme`: nothing
    /// in an empty area; its message, muted and centred, when it has no items;
    /// else, from the scroll offset on, one row per item (see `list_row_at`)
    /// down to the viewport's last item or the bottom line, beside a scrollbar
    /// of two columns when the rows exceed the viewport and it is on.
    pub fn render_plan(&self, width: u16, height: u16, theme: &Theme) -> (p: Option<ListPlan>)
        ensures
            (width == 0 || height == 0) <==> p.is_none(),
            p matches Some(plan) ==> match plan {
                ListPlan::Message { x, y, message, style } => {
                    let mw = (text_width(self.message()) % 0x10000) as u16;
                    &&& self.entries().len() == 0
                    &&& message@ == self.message()
                    &&& style == theme.styles.text_muted
                    &&& x == if width > mw {
                        (width - mw) / 2
                    } else {
                        0
                    }
                    &&& y == height / 2
                },
                ListPlan::Rows { rows, content_width, scrollbar } => {
                    let vp = if height < (self.nav().viewport() % 0x10000) {
                        height as int
                    } else {
                        (self.nav().viewport() % 0x10000) as int
                    };
                    let start = self.nav().offset() as int;
                    let end = if start + vp < self.entries().len() {
                        start + vp
                    } else {
                        self.entries().len() as int
                    };
                    let styles = item_styles_for(self.custom(), self.custom_focus(), self.custom_selected(), *theme);
                    let rs = list_rows_from(
                        self.entries(),
                        self.selection(),
                        self.nav().focused(),
                        self.has_focus(),
                        self.mode(),
                        styles,
                        content_width,
                        start,
                        end,
                        0,
                        height as int,
                    );
                    &&& self.entries().len() > 0
                    &&& scrollbar == self.shows_scrollbar(height)
                    &&& content_width == if scrollbar {
                        if width > 2 {
                            (width - 2) as u16
                        } else {
                            0
                        }
                    } else {
                        width
                    }
                    &&& rows@.len() == rs.len()
                    &&& forall|j: int| 0 <= j < rs.len() ==> (#[trigger] rows@[j]).view() == rs[j]
                },
            },
    {
        proof { use_type_invariant(self); }
        if width == 0 || height == 0 {
            return None;
        }
        if self.items.len() == 0 {
            let mw = (str_width(self.empty_message.as_str()) % 0x10000) as u16;
            let x = if width > mw {
                (width - mw) / 2
            } else {
                0
            };
            return Some(
                ListPlan::Message { x, y: height / 2, message: owned(self.empty_message.as_str()), style: theme.styles.text_muted },
            );
        }
        let styles = self.get_item_styles(theme);
        let vp16 = (self.navigation.viewport_size() % 0x10000) as u16;
        let viewport: usize = if height < vp16 {
            height as usize
        } else {
            vp16 as usize
        };
        let n = self.items.len();
        let start = self.navigation.scroll_offset();
        let end = if start + viewport < n {
            start + viewport
        } else {
            n
        };
        let total = self.calculate_total_rows();
        let scrollbar = self.show_scrollbar && total > viewport;
        let content_width = if scrollbar {
            width.saturating_sub(2)
        } else {
            width
        };
        let ghost all = list_rows_from(
            self.items@,
            self.selected_indices@,
            self.navigation.focused(),
            self.focused,
            self.selection_mode,
            styles,
            content_width,
            start as int,
            end as int,
            0,
            height as int,
        );
        let mut rows: Vec<ListRow> = Vec::new();
        let mut i = start;
        let mut y: u16 = 0;
        while i < end && y < height
            invariant
                n == self.items@.len(),
                start <= i <= end || (i == start && end < start),
                end <= n,
                y <= height,
                all == list_rows_from(
                    self.items@,
                    self.selected_indices@,
                    self.navigation.focused(),
                    self.focused,
                    self.selection_mode,
                    styles,
                    content_width,
                    start as int,
                    end as int,
                    0,
                    height as int,
                ),
                all == rows@.map_values(|r: ListRow| r.view()) + list_rows_from(
                    self.items@,
                    self.selected_indices@,
                    self.navigation.focused(),
                    self.focused,
                    self.selection_mode,
                    styles,
                    content_width,
                    i as int,
                    end as int,
                    y as int,
                    height as int,
                ),
            decreases end - i,
        {
            let item = &self.items[i];
            let focused_here = match self.navigation.focused_index() {
                Some(f) => f == i,
                None => false,
            };
            let selected = find_pos(&self.selected_indices, i) < self.selected_indices.len();
            let style = self.select_item_style(&styles, item.disabled, focused_here, selected);
            let indicator = indicator_text(self.selection_mode, selected, focused_here && self.focused);
            let iw = (str_width(indicator.as_str()) % 0x10000) as u16;
            let available = content_width.saturating_sub(iw);
            let label = truncate_text(item.label.as_str(), available);
            let divider_y = if item.divider_below && y + 1 < height {
                Some(y + 1)
            } else {
                None
            };
            let row = ListRow { y, style, fill: focused_here || selected, indicator, label_x: iw, label, divider_y };
            proof {
                let r = list_row_at(
                    self.items@,
                    self.selected_indices@,
                    self.navigation.focused(),
                    self.focused,
                    self.selection_mode,
                    styles,
                    content_width,
                    i as int,
                    y as int,
                    height as int,
                );
                assert(row.view() == r);
                assert(rows@.push(row).map_values(|r: ListRow| r.view()) =~= rows@.map_values(|r: ListRow| r.view()).push(
                    row.view(),
                ));
            }
            rows.push(row);
            y = match divider_y {
                Some(d) => d + 1,
                None => y + 1,
            };
            i = i + 1;
        }
        proof {
            assert(rows@.map_values(|r: ListRow| r.view()) =~= all);
        }
        Some(ListPlan::Rows { rows, content_width, scrollbar })
    }
}

/// The indicator text of an item (see `indicator_of`).
fn indicator_text(mode: SelectionMode, selected: bool, focused_here: bool) -> (s: String)
    ensures
        s@ == indicator_of(mode, selected, focused_here),
{
    let mut s = String::new();
    match mode {
        SelectionMode::Multiple => {
            push_char(&mut s, '[');
            push_char(&mut s, if selected { '✓' } else { ' ' });
            push_char(&mut s, ']');
            push_char(&mut s, ' ');
        },
        SelectionMode::Single => {
            push_char(&mut s, '(');
            push_char(&mut s, if selected { '•' } else { ' ' });
            push_char(&mut s, ')');
            push_char(&mut s, ' ');
        },
        SelectionMode::Off => {
            push_char(&mut s, if focused_here { '>' } else { ' ' });
            push_char(&mut s, ' ');
        },
    }
    proof {
        assert(s@ =~= indicator_of(mode, selected, focused_here));
    }
    s
}

/// The size a list asks for: as wide as its widest label (or its message when
/// empty) plus the indicator and, when the rows exceed the viewport and the
/// scrollbar is on, the scrollbar; at least 20 wide (capped at the largest
/// `u16`). As high as its rows up to the viewport, at least 3.
pub open spec fn list_size<T: Clone>(items: Seq<ListItem<T>>, message: Seq<char>, show: bool, viewport: int) -> (u16, u16) {
    let widest_label = if items.len() > 0 {
        widest(item_widths(items), items.len() as int)
    } else {
        cells16(text_width(message))
    };
    let content = if items.len() == 0 {
        1
    } else {
        total_rows(items) as int
    };
    let bar = if show && content > viewport {
        2int
    } else {
        0int
    };
    let total = widest_label + 4 + bar;
    let w = if total > u16::MAX {
        u16::MAX as int
    } else {
        total
    };
    let h = if content < viewport {
        content
    } else {
        viewport
    };
    ((if w > 20 {
        w
    } else {
        20
    }) as u16, (if h > 3 {
        h
    } else {
        3
    }) as u16)
}

impl<T: Clone, M> Widget<M> for List<T, M> {
    open spec fn can_focus(&self) -> bool {
        exists|i: int| 0 <= i < self.entries().len() && !(#[trigger] self.entries()[i]).disabled
    }

    open spec fn focus_flag(&self) -> bool {
        self.has_focus()
    }

    open spec fn keeps_focus(&self) -> bool {
        true
    }

    /// An event that is no step of the list.
    open spec fn passes_over(&self, event: Event) -> bool {
        list_step(event) is Ignore
    }

    /// Focus moves (arrows, Home, End, page keys, wheel) and selection toggles
    /// (Enter, Space, left click) are consumed; everything else is ignored.
    fn handle_event(&mut self, event: &Event) -> (r: EventResult<M>)
        ensures
            final(self).same_setup(old(self)),
            final(self).has_focus() == old(self).has_focus(),
            match list_step(*event) {
                ListStep::Ignore => r is Ignored && final(self).nav() == old(self).nav()
                    && final(self).selection() == old(self).selection(),
                ListStep::Move(a) => (r matches EventResult::Consumed(v) && v@.len() == 0)
                    && final(self).selection() == old(self).selection()
                    && SelectableNavigation::moved_to(
                    old(self).nav(),
                    final(self).nav(),
                    nav_target(a, item_off(old(self).entries()), old(self).nav(), old(self).entries().len() as int),
                ),
                ListStep::Toggle => final(self).nav() == old(self).nav() && (r matches EventResult::Consumed(v) && ({
                    let f = old(self).nav().focused();
                    if old(self).mode() == SelectionMode::Off || f.is_none() || old(self).entries()[f.unwrap() as int].disabled {
                        final(self).selection() == old(self).selection() && v@.len() == 0
                    } else {
                        final(self).selection() == toggled(old(self).selection(), old(self).mode(), f.unwrap())
                            && select_fired(
                            old(self).select_handler(),
                            old(self).entries(),
                            final(self).selection(),
                            old(self).nav(),
                            v@,
                        )
                    }
                })),
            },
    {
        let step: Option<Option<NavAction>> = match event {
            Event::Key(k) => match k.code {
                KeyCode::Down => Some(Some(NavAction::Next)),
                KeyCode::Up => Some(Some(NavAction::Previous)),
                KeyCode::Home => Some(Some(NavAction::First)),
                KeyCode::End => Some(Some(NavAction::Last)),
                KeyCode::PageDown => Some(Some(NavAction::PageDown)),
                KeyCode::PageUp => Some(Some(NavAction::PageUp)),
                KeyCode::Enter => Some(None),
                KeyCode::Char(c) => if c == ' ' {
                    Some(None)
                } else {
                    None
                },
                _ => None,
            },
            Event::Mouse(m) => match m.kind {
                MouseEventKind::Down(MouseButton::Left) => Some(None),
                MouseEventKind::ScrollDown => Some(Some(NavAction::Next)),
                MouseEventKind::ScrollUp => Some(Some(NavAction::Previous)),
                _ => None,
            },
            _ => None,
        };
        match step {
            Some(Some(action)) => {
                self.move_focus(action);
                EventResult::Consumed(Vec::new())
            },
            Some(None) => {
                let messages = self.toggle_selection();
                EventResult::Consumed(messages)
            },
            None => EventResult::Ignored,
        }
    }

    fn constraints(&self) -> (c: Constraints)
        ensures
            ({
                let (w, h) = list_size(self.entries(), self.message(), self.scrollbar(), self.nav().viewport() as int);
                c@ == (ConstraintsView {
                    min_width: w,
                    max_width: Some(w),
                    min_height: h,
                    max_height: Some(h),
                    flex: None,
                })
            }),
    {
        proof { use_type_invariant(self); }
        let ghost ws = item_widths(self.items@);
        let n = self.items.len();
        let widest_label: u16 = if n > 0 {
            let mut m: u16 = 0;
            let mut i: usize = 0;
            while i < n
                invariant
                    n == self.items@.len(),
                    ws == item_widths(self.items@),
                    i <= n,
                    m == widest(ws, i as int),
                decreases n - i,
            {
                let w = str_width(self.items[i].label.as_str());
                proof {
                    assert(ws[i as int] == text_width(self.items@[i as int].label@));
                }
                let cells = (w % 0x10000) as u16;
                if cells > m {
                    m = cells;
                }
                i = i + 1;
            }
            m
        } else {
            (str_width(self.empty_message.as_str()) % 0x10000) as u16
        };
        let content_height: usize = if n == 0 {
            1
        } else {
            self.calculate_total_rows()
        };
        let viewport = self.navigation.viewport_size();
        let bar: u16 = if self.show_scrollbar && content_height > viewport {
            2
        } else {
            0
        };
        let total = widest_label.saturating_add(4).saturating_add(bar);
        let display = if content_height < viewport {
            content_height
        } else {
            viewport
        } as u16;
        let w = if total > 20 {
            total
        } else {
            20
        };
        let h = if display > 3 {
            display
        } else {
            3
        };
        Constraints { min_width: w, max_width: Some(w), min_height: h, max_height: Some(h), flex: None }
    }

    /// Focusable while some item is enabled.
    fn focusable(&self) -> (b: bool)
        ensures
            b == exists|i: int| 0 <= i < self.entries().len() && !(#[trigger] self.entries()[i]).disabled,
    {
        let mut i: usize = 0;
        while i < self.items.len()
            invariant
                i <= self.items@.len(),
                forall|j: int| 0 <= j < i ==> (#[trigger] self.items@[j]).disabled,
            decreases self.items@.len() - i,
        {
            if !self.items[i].disabled {
                proof {
                    assert(!self.entries()[i as int].disabled);
                }
                return true;
            }
            i = i + 1;
        }
        false
    }

    fn is_focused(&self) -> (b: bool)
        ensures
            b == self.has_focus(),
    {
        self.focused
    }

    /// Sets focus; on gaining it without a focused item, the first enabled item
    /// is focused.
    fn set_focused(&mut self, focused: bool)
        ensures
            final(self).has_focus() == focused,
            final(self).same_setup(old(self)),
            final(self).selection() == old(self).selection(),
            (focused && old(self).nav().focused().is_none() && old(self).entries().len() > 0)
                ==> SelectableNavigation::moved_to(
                old(self).nav(),
                final(self).nav(),
                nav_target(NavAction::First, item_off(old(self).entries()), old(self).nav(), old(self).entries().len() as int),
            ),
            !(focused && old(self).nav().focused().is_none() && old(self).entries().len() > 0)
                ==> final(self).nav() == old(self).nav(),
    {
        proof { use_type_invariant(&*self); }
        self.focused = focused;
        if focused && self.navigation.focused_index().is_none() && self.items.len() > 0 {
            self.move_focus(NavAction::First);
        }
    }
}

/// A new empty list.
pub fn list<T: Clone, M>() -> (l: List<T, M>)
    ensures
        l.entries().len() == 0,
        l.selection().len() == 0,
        l.mode() == SelectionMode::Single,
        l.nav().focused().is_none(),
        l.nav().viewport() == 10,
        l.scrollbar(),
        !l.has_focus(),
        l.select_handler().is_none(),
{
    List::empty()
}

/// The first position of `x` in `v`, or `v.len()` when absent.
pub fn find_pos(v: &Vec<usize>, x: usize) -> (r: usize)
    ensures
        r == first_pos(v@, x),
        (r < v@.len()) == v@.contains(x),
        r <= v@.len(),
        r < v@.len() ==> v@[r as int] == x,
{
    let mut i: usize = 0;
    proof {
        assert(v@.skip(0) =~= v@);
    }
    while i < v.len()
        invariant
            i <= v@.len(),
            forall|j: int| 0 <= j < i ==> v@[j] != x,
            first_pos(v@, x) == i + first_pos(v@.skip(i as int), x),
        decreases v@.len() - i,
    {
        proof {
            assert(v@.skip(i as int).drop_first() =~= v@.skip(i as int + 1));
        }
        if v[i] == x {
            return i;
        }
        i = i + 1;
    }
    proof {
        assert(v@.skip(i as int) =~= Seq::<usize>::empty());
        if v@.contains(x) {
            let j = choose|j: int| 0 <= j < v@.len() && v@[j] == x;
            assert(v@[j] != x);
        }
    }
    i
}

/// One more step of the upward search: a hit below `i` stays the answer, else
/// the search goes on from `i`.
pub proof fn lemma_first_up_step(dis: spec_fn(int) -> bool, i: int, count: int)
    requires
        0 <= i < count,
    ensures
        (if first_up(dis, 0, i + 1).is_some() {
            first_up(dis, 0, i + 1)
        } else {
            first_up(dis, i + 1, count)
        }) == (if first_up(dis, 0, i).is_some() {
            first_up(dis, 0, i)
        } else {
            first_up(dis, i, count)
        }),
        first_up(dis, 0, i + 1) == (if first_up(dis, 0, i).is_some() {
            first_up(dis, 0, i)
        } else if !dis(i) {
            Some(i)
        } else {
            None
        }),
    decreases i,
{
    crate::navigation::law_first_up(dis, 0, i);
    crate::navigation::law_first_up(dis, 0, i + 1);
    crate::navigation::law_first_up(dis, i, count);
    crate::navigation::law_first_up(dis, i + 1, count);
    if first_up(dis, 0, i).is_some() {
        let t = first_up(dis, 0, i).unwrap();
        assert(first_up(dis, 0, i + 1) == Some(t)) by {
            crate::navigation::law_first_up(dis, 0, i + 1);
            if first_up(dis, 0, i + 1) != Some(t) {
                let u = first_up(dis, 0, i + 1);
                if u.is_none() {
                    assert(dis(t));
                } else {
                    let v = u.unwrap();
                    if v < t {
                        assert(dis(v));
                    } else if v > t {
                        assert(dis(t));
                    }
                }
            }
        }
    } else {
        if !dis(i) {
            assert(first_up(dis, 0, i + 1) == Some(i)) by {
                if first_up(dis, 0, i + 1) != Some(i) {
                    let u = first_up(dis, 0, i + 1);
                    if u.is_none() {
                        assert(dis(i));
                    } else {
                        let v = u.unwrap();
                        if v < i {
                            assert(dis(v));
                        }
                    }
                }
            }
        } else {
            assert(first_up(dis, 0, i + 1).is_none()) by {
                if first_up(dis, 0, i + 1).is_some() {
                    let v = first_up(dis, 0, i + 1).unwrap();
                    if v < i {
                        assert(dis(v));
                    }
                }
            }
        }
    }
}

impl<T: Clone> ListItem<T> {
    /// A copy of the item whose value is a clone.
    pub fn clone_item(&self) -> (i: Self)
        ensures
            cloned(self.value, i.value),
            i.label@ == self.label@,
            i.disabled == self.disabled,
            i.divider_below == self.divider_below,
    {
        ListItem {
            value: self.value.clone(),
            label: owned(self.label.as_str()),
            disabled: self.disabled,
            divider_below: self.divider_below,
        }
    }
}

} // verus!
