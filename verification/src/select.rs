//! A select: a trigger showing the chosen item that opens a dropdown of items.

use vstd::prelude::*;
use crate::choice::{cells16, widest};
use crate::event::{Event, EventResult, KeyCode, MouseButton, MouseEvent, MouseEventKind, Widget};
use crate::geometry::Rect;
use crate::handler::{handler_ready, Handler};
use crate::layout::{Constraints, ConstraintsView};
use crate::navigation::{first_up, next_start, previous_start, scan_backward, scan_forward, visible_offset};
use crate::style::{make_style, styled, Style};
use crate::text::{owned, push_char};
use crate::theme::Theme;
use crate::width::{char_cells, char_width, str_width, text_width};

verus! {

/// The chosen item: its value and index.
#[derive(Debug, Clone)]
pub struct SelectEvent<T: Clone> {
    /// The selected item value
    pub value: T,
    /// The selected item index
    pub index: usize,
}

/// An item of a select.
#[derive(Debug, Clone)]
pub struct SelectItem<T: Clone> {
    /// The value the item stands for
    pub value: T,
    /// The text shown
    pub label: String,
    /// A disabled item cannot be chosen
    pub disabled: bool,
}

impl<T: Clone> SelectItem<T> {
    /// An enabled item.
    pub fn new(value: T, label: &str) -> (i: Self)
        ensures
            i.value == value,
            i.label@ == label@,
            !i.disabled,
    {
        SelectItem { value, label: owned(label), disabled: false }
    }

    pub fn disabled(self, disabled: bool) -> (i: Self)
        ensures
            i == (SelectItem { disabled, ..self }),
    {
        SelectItem { disabled, ..self }
    }
}

/// Padding and border of a select, bordered or borderless.
#[derive(Debug, Clone, Copy, PartialEq, Eq, Structural)]
pub struct StyleConfig {
    /// Columns before the content
    pub content_padding_x: u16,
    /// Rows above the content
    pub content_padding_y: u16,
    /// Border width (0 borderless, 1 bordered)
    pub border_offset: u16,
}

impl StyleConfig {
    /// One column of padding, no border.
    pub fn borderless() -> (c: Self)
        ensures
            c == (StyleConfig { content_padding_x: 1, content_padding_y: 0, border_offset: 0 }),
    {
        StyleConfig { content_padding_x: 1, content_padding_y: 0, border_offset: 0 }
    }

    /// Two columns and one row of padding inside a border.
    pub fn bordered() -> (c: Self)
        ensures
            c == (StyleConfig { content_padding_x: 2, content_padding_y: 1, border_offset: 1 }),
    {
        StyleConfig { content_padding_x: 2, content_padding_y: 1, border_offset: 1 }
    }

    pub fn from_borderless(borderless: bool) -> (c: Self)
        ensures
            c == if borderless {
                StyleConfig { content_padding_x: 1, content_padding_y: 0, border_offset: 0 }
            } else {
                StyleConfig { content_padding_x: 2, content_padding_y: 1, border_offset: 1 }
            },
    {
        if borderless {
            Self::borderless()
        } else {
            Self::bordered()
        }
    }

    /// One row without border, three with (border, content, border).
    pub fn trigger_height(&self) -> (h: u16)
        ensures
            h == if self.border_offset == 0 {
                1u16
            } else {
                3u16
            },
    {
        if self.border_offset == 0 {
            1
        } else {
            3
        }
    }

    /// The rows the dropdown border takes: none without border, two with.
    pub fn dropdown_border_offset(&self) -> (h: u16)
        ensures
            h == if self.border_offset == 0 {
                0u16
            } else {
                2u16
            },
    {
        if self.border_offset == 0 {
            0
        } else {
            2
        }
    }
}

/// The styles of the dropdown.
#[derive(Debug, Clone, Copy)]
pub struct DropdownStyles {
    pub normal: Style,
    pub focused: Style,
    pub selected: Style,
    pub border: Style,
    pub background: Style,
    pub disabled: Style,
}

impl DropdownStyles {
    /// The dropdown styles of `theme`.
    pub fn from_theme(theme: &Theme) -> (s: Self)
        ensures
            s.normal == styled(Some(theme.colors.text), Some(theme.colors.surface), false),
            s.focused == styled(Some(theme.colors.text), Some(theme.colors.focus_background), false),
            s.selected == styled(Some(theme.colors.text), Some(theme.colors.primary), false),
            s.border == styled(Some(theme.colors.border), Some(theme.colors.surface), false),
            s.background == styled(None, Some(theme.colors.surface), false),
            s.disabled == theme.styles.disabled,
    {
        let c = &theme.colors;
        DropdownStyles {
            normal: make_style(Some(c.text), Some(c.surface), false),
            focused: make_style(Some(c.text), Some(c.focus_background), false),
            selected: make_style(Some(c.text), Some(c.primary), false),
            border: make_style(Some(c.border), Some(c.surface), false),
            background: make_style(None, Some(c.surface), false),
            disabled: theme.styles.disabled,
        }
    }

    /// The style of an item: disabled, else selected, else focused, else normal.
    pub fn item_style(&self, is_disabled: bool, is_selected: bool, is_focused: bool) -> (s: Style)
        ensures
            s == if is_disabled {
                self.disabled
            } else if is_selected {
                self.selected
            } else if is_focused {
                self.focused
            } else {
                self.normal
            },
    {
        if is_disabled {
            self.disabled
        } else if is_selected {
            self.selected
        } else if is_focused {
            self.focused
        } else {
            self.normal
        }
    }
}

/// The trigger's style: the custom focus style (or the theme's focused style)
/// while focused, the custom style (or the theme's interactive style) otherwise.
pub fn get_trigger_style(is_focused: bool, custom_style: Option<Style>, custom_focus_style: Option<Style>, theme: &Theme) -> (s: Style)
    ensures
        s == if is_focused {
            match custom_focus_style {
                Some(f) => f,
                None => theme.styles.interactive_focused,
            }
        } else {
            match custom_style {
                Some(c) => c,
                None => theme.styles.interactive,
            }
        },
{
    if is_focused {
        match custom_focus_style {
            Some(f) => f,
            None => theme.styles.interactive_focused,
        }
    } else {
        match custom_style {
            Some(c) => c,
            None => theme.styles.interactive,
        }
    }
}

/// The scrollbar's track and thumb styles: the border and info colors.
pub fn get_scrollbar_styles(theme: &Theme) -> (s: (Style, Style))
    ensures
        s.0 == styled(Some(theme.colors.border), None, false),
        s.1 == styled(Some(theme.colors.info), None, false),
{
    (make_style(Some(theme.colors.border), None, false), make_style(Some(theme.colors.info), None, false))
}

/// A character's width as the 16-bit cell count of the layout (0 for control).
pub open spec fn char_cells16(c: char) -> int {
    match char_cells(c) {
        Some(w) => (w % 0x10000) as int,
        None => 0,
    }
}

/// The characters of `cs` kept while they and an ellipsis fit in `avail`
/// columns (`used` taken already), with the ellipsis where they stop fitting.
pub open spec fn cut_to_fit(cs: Seq<char>, avail: int, used: int) -> Seq<char>
    decreases cs.len(),
{
    if cs.len() == 0 {
        Seq::empty()
    } else if used + char_cells16(cs[0]) + 1 > avail {
        seq!['…']
    } else {
        seq![cs[0]] + cut_to_fit(cs.drop_first(), avail, used + char_cells16(cs[0]))
    }
}

/// `text` when it fits in `avail` columns, else cut with an ellipsis.
pub open spec fn truncated(text: Seq<char>, avail: int) -> Seq<char> {
    if cells16(text_width(text)) <= avail {
        text
    } else {
        cut_to_fit(text, avail, 0)
    }
}

/// The text cut to fit `available_width` columns, with an ellipsis when cut.
pub fn truncate_text(text: &str, available_width: u16) -> (r: String)
    ensures
        r@ == truncated(text@, available_width as int),
{
    let tw = (str_width(text) % 0x10000) as u16;
    if tw <= available_width {
        return owned(text);
    }
    let cs = crate::text::chars_of(text);
    let mut out = String::new();
    let mut used: u32 = 0;
    let mut i: usize = 0;
    proof {
        assert(cs@.skip(0) =~= cs@);
        assert(tw as int == cells16(text_width(text@)));
    }
    while i < cs.len()
        invariant
            i <= cs@.len(),
            cs@ == text@,
            cells16(text_width(text@)) > available_width,
            used <= available_width,
            out@ + cut_to_fit(cs@.skip(i as int), available_width as int, used as int) == cut_to_fit(
                cs@,
                available_width as int,
                0,
            ),
        decreases cs@.len() - i,
    {
        let c = cs[i];
        let w: u32 = match char_width(c) {
            Some(w) => (w % 0x10000) as u32,
            None => 0,
        };
        proof {
            assert(cs@.skip(i as int)[0] == c);
            assert(cs@.skip(i as int).drop_first() =~= cs@.skip(i as int + 1));
        }
        proof {
            assert(char_cells16(c) == w as int);
        }
        if used + w + 1 > available_width as u32 {
            proof {
                assert(cut_to_fit(cs@.skip(i as int), available_width as int, used as int) == seq!['…']);
            }
            push_char(&mut out, '…');
            proof {
                assert(out@ =~= cut_to_fit(cs@, available_width as int, 0));
            }
            return out;
        }
        let ghost before = out@;
        push_char(&mut out, c);
        proof {
            assert(out@ == before.push(c));
            assert(before + cut_to_fit(cs@.skip(i as int), available_width as int, used as int) == before + (
            seq![c] + cut_to_fit(cs@.skip(i as int + 1), available_width as int, used + w)));
            assert(before + (seq![c] + cut_to_fit(cs@.skip(i as int + 1), available_width as int, used + w))
                =~= before.push(c) + cut_to_fit(cs@.skip(i as int + 1), available_width as int, used + w));
        }
        used = used + w;
        i = i + 1;
    }
    proof {
        assert(cs@.skip(i as int) =~= Seq::<char>::empty());
        assert(out@ + Seq::<char>::empty() =~= out@);
    }
    out
}

/// Which select items are disabled.
pub open spec fn select_off<T: Clone>(items: Seq<SelectItem<T>>) -> spec_fn(int) -> bool {
    |i: int| items[i].disabled
}

/// What the select callback gives for choosing item `i`: one message for an
/// event with a clone of its value and its index, or none without a callback.
pub open spec fn choice_fired<T: Clone, M>(
    h: Option<Box<dyn Handler<(SelectEvent<T>,), M>>>,
    items: Seq<SelectItem<T>>,
    i: usize,
    out: Seq<M>,
) -> bool {
    match h {
        Some(f) => out.len() == 1 && exists|e: SelectEvent<T>|
            e.index == i && cloned(items[i as int].value, e.value) && #[trigger] f.gives((e,), out[0]),
        None => out.len() == 0,
    }
}

/// Whether `(col, row)` lies in `area` (computed without overflow).
pub open spec fn in_area(area: Rect, col: u16, row: u16) -> bool {
    area.x <= col < area.x + area.width && area.y <= row < area.y + area.height
}

/// The rows the open dropdown takes: the items up to its height, plus border.
pub open spec fn dropdown_rows(count: nat, height: u16, borderless: bool) -> int {
    let shown = if (count as u16) < height {
        count as u16
    } else {
        height
    };
    shown + if borderless {
        0int
    } else {
        2int
    }
}

/// A dropdown select.
#[verifier::reject_recursive_types(T)]
#[verifier::reject_recursive_types(M)]
pub struct Select<T: Clone, M = ()> {
    items: Vec<SelectItem<T>>,
    selected_index: Option<usize>,
    focused_index: Option<usize>,
    placeholder: String,
    opened: bool,
    scroll_offset: usize,
    dropdown_height: u16,
    trigger_focused: bool,
    dropdown_focused: bool,
    overlay_mode: bool,
    borderless: bool,
    custom_style: Option<Style>,
    custom_focus_style: Option<Style>,
    on_select: Option<Box<dyn Handler<(SelectEvent<T>,), M>>>,
    trigger_area: Option<Rect>,
}

/// The shape of a select: everything but which item is focused, chosen and
/// scrolled to, whether it is open and focused, and where its trigger is.
pub struct SelectSetup<T: Clone> {
    pub items: Seq<SelectItem<T>>,
    pub placeholder: Seq<char>,
    pub dropdown_height: u16,
    pub overlay_mode: bool,
    pub borderless: bool,
    pub custom_style: Option<Style>,
    pub custom_focus_style: Option<Style>,
}

impl<T: Clone, M> Select<T, M> {
    #[verifier::type_invariant]
    spec fn inv(&self) -> bool {
        &&& handler_ready(self.on_select)
        &&& self.items@.len() <= usize::MAX / 2
        &&& (self.focused_index matches Some(i) ==> i < self.items@.len())
        &&& (self.selected_index matches Some(i) ==> i < self.items@.len())
        &&& (self.scroll_offset == 0 || self.scroll_offset < self.items@.len())
    }

    pub closed spec fn entries(&self) -> Seq<SelectItem<T>> {
        self.items@
    }

    pub closed spec fn chosen(&self) -> Option<usize> {
        self.selected_index
    }

    pub closed spec fn focus(&self) -> Option<usize> {
        self.focused_index
    }

    pub closed spec fn open(&self) -> bool {
        self.opened
    }

    pub closed spec fn offset(&self) -> usize {
        self.scroll_offset
    }

    pub closed spec fn trigger_has_focus(&self) -> bool {
        self.trigger_focused
    }

    pub closed spec fn dropdown_has_focus(&self) -> bool {
        self.dropdown_focused
    }

    pub closed spec fn trigger_rect(&self) -> Option<Rect> {
        self.trigger_area
    }

    pub closed spec fn select_handler(&self) -> Option<Box<dyn Handler<(SelectEvent<T>,), M>>> {
        self.on_select
    }

    pub closed spec fn setup(&self) -> SelectSetup<T> {
        SelectSetup {
            items: self.items@,
            placeholder: self.placeholder@,
            dropdown_height: self.dropdown_height,
            overlay_mode: self.overlay_mode,
            borderless: self.borderless,
            custom_style: self.custom_style,
            custom_focus_style: self.custom_focus_style,
        }
    }

    /// Setup and callback as in `other`.
    pub open spec fn same_setup(&self, other: &Self) -> bool {
        &&& self.setup() == other.setup()
        &&& self.select_handler() == other.select_handler()
    }

    /// Nothing but the setup may differ from `other`.
    pub open spec fn same_state(&self, other: &Self) -> bool {
        &&& self.chosen() == other.chosen()
        &&& self.focus() == other.focus()
        &&& self.open() == other.open()
        &&& self.offset() == other.offset()
        &&& self.trigger_has_focus() == other.trigger_has_focus()
        &&& self.dropdown_has_focus() == other.dropdown_has_focus()
        &&& self.trigger_rect() == other.trigger_rect()
        &&& self.select_handler() == other.select_handler()
    }

    /// All but focus and offset are as in `other`.
    pub open spec fn moved_from(&self, other: &Self) -> bool {
        &&& self.same_setup(other)
        &&& self.chosen() == other.chosen()
        &&& self.open() == other.open()
        &&& self.trigger_has_focus() == other.trigger_has_focus()
        &&& self.dropdown_has_focus() == other.dropdown_has_focus()
        &&& self.trigger_rect() == other.trigger_rect()
    }

    /// Focus went to `t` (scrolled into view), or nowhere when `t` is `None`.
    pub open spec fn focus_went(&self, old: &Self, t: Option<int>) -> bool {
        match t {
            Some(f) => self.focus() == Some(f as usize) && self.offset() == visible_offset(
                old.offset() as int,
                old.setup().dropdown_height as int,
                f,
            ),
            None => self.focus() == old.focus() && self.offset() == old.offset(),
        }
    }

    /// The effect of `focus_next` from `old`.
    pub open spec fn next_done(&self, old: &Self) -> bool {
        let n = old.entries().len() as int;
        &&& self.moved_from(old)
        &&& self.focus_went(old, if n == 0 {
            None
        } else {
            scan_forward(select_off(old.entries()), next_start(old.focus()), n, 0)
        })
    }

    /// The effect of `focus_previous` from `old`.
    pub open spec fn previous_done(&self, old: &Self) -> bool {
        let n = old.entries().len() as int;
        &&& self.moved_from(old)
        &&& self.focus_went(old, if n == 0 {
            None
        } else {
            scan_backward(select_off(old.entries()), previous_start(old.focus(), n), n, 0)
        })
    }

    /// The effect of `close_dropdown` from `old`.
    pub open spec fn closed_from(&self, old: &Self) -> bool {
        &&& !self.open()
        &&& self.same_setup(old)
        &&& self.chosen() == old.chosen() && self.focus() == old.focus() && self.offset() == old.offset()
        &&& self.trigger_has_focus() == old.trigger_has_focus()
        &&& self.dropdown_has_focus() == old.dropdown_has_focus()
        &&& self.trigger_rect() == old.trigger_rect()
    }

    /// The effect of `toggle_dropdown` from `old`.
    pub open spec fn toggled_from(&self, old: &Self) -> bool {
        &&& self.open() == !old.open()
        &&& self.same_setup(old)
        &&& self.chosen() == old.chosen()
        &&& self.trigger_has_focus() == old.trigger_has_focus()
        &&& self.dropdown_has_focus() == old.dropdown_has_focus()
        &&& self.trigger_rect() == old.trigger_rect()
        &&& old.open() ==> self.focus() == old.focus() && self.offset() == old.offset()
        &&& !old.open() ==> self.focus() == (if old.chosen().is_some() {
            old.chosen()
        } else if old.focus().is_none() {
            match first_up(select_off(old.entries()), 0, old.entries().len() as int) {
                Some(i) => Some(i as usize),
                None => None,
            }
        } else {
            old.focus()
        }) && self.offset() == match self.focus() {
            Some(f) => visible_offset(old.offset() as int, old.setup().dropdown_height as int, f as int) as usize,
            None => old.offset(),
        }
    }

    /// The effect of `select_focused` from `old`, giving `out`.
    pub open spec fn chose_from(&self, old: &Self, out: Seq<M>) -> bool {
        &&& self.same_setup(old)
        &&& self.focus() == old.focus() && self.offset() == old.offset()
        &&& self.trigger_has_focus() == old.trigger_has_focus()
        &&& self.dropdown_has_focus() == old.dropdown_has_focus()
        &&& self.trigger_rect() == old.trigger_rect()
        &&& match old.focus() {
            Some(f) => if old.entries()[f as int].disabled {
                self.chosen() == old.chosen() && self.open() == old.open() && out.len() == 0
            } else {
                self.chosen() == Some(f) && !self.open() && choice_fired(old.select_handler(), old.entries(), f, out)
            },
            None => self.chosen() == old.chosen() && self.open() == old.open() && out.len() == 0,
        }
    }

    /// Focus set to `f`, then the effect of `select_focused` from there.
    pub open spec fn chose_at(&self, old: &Self, f: usize, out: Seq<M>) -> bool {
        &&& self.same_setup(old)
        &&& self.focus() == Some(f) && self.offset() == old.offset()
        &&& self.trigger_has_focus() == old.trigger_has_focus()
        &&& self.dropdown_has_focus() == old.dropdown_has_focus()
        &&& self.trigger_rect() == old.trigger_rect()
        &&& if old.entries()[f as int].disabled {
            self.chosen() == old.chosen() && self.open() == old.open() && out.len() == 0
        } else {
            self.chosen() == Some(f) && !self.open() && choice_fired(old.select_handler(), old.entries(), f, out)
        }
    }

    /// The row where the dropdown starts below a trigger at `ta`.
    pub open spec fn dropdown_top(&self, ta: Rect) -> int {
        if self.setup().overlay_mode {
            ta.y + ta.height
        } else {
            ta.y + if self.setup().borderless {
                1int
            } else {
                3int
            }
        }
    }

    /// Whether `(col, row)` lies in the open dropdown below a trigger at `ta`.
    pub open spec fn in_dropdown(&self, ta: Rect, col: u16, row: u16) -> bool {
        &&& ta.x <= col < ta.x + ta.width
        &&& self.dropdown_top(ta) <= row < self.dropdown_top(ta) + dropdown_rows(
            self.entries().len(),
            self.setup().dropdown_height,
            self.setup().borderless,
        )
    }

    /// The item a click at `row` of the dropdown below a trigger at `ta` lands on.
    pub open spec fn click_index(&self, ta: Rect, row: u16) -> int {
        let top = self.dropdown_top(ta) + if self.setup().borderless {
            0int
        } else {
            1int
        };
        self.offset() + if row >= top {
            row - top
        } else {
            0
        }
    }

    /// Index of the first enabled item.
    fn first_enabled(items: &Vec<SelectItem<T>>) -> (r: Option<usize>)
        ensures
            (match r {
                Some(i) => Some(i as int),
                None => None,
            }) == first_up(select_off(items@), 0, items@.len() as int),
            r matches Some(i) ==> i < items@.len(),
    {
        let mut i: usize = 0;
        while i < items.len()
            invariant
                i <= items@.len(),
                first_up(select_off(items@), i as int, items@.len() as int) == first_up(
                    select_off(items@),
                    0,
                    items@.len() as int,
                ),
            decreases items@.len() - i,
        {
            if !items[i].disabled {
                return Some(i);
            }
            i = i + 1;
        }
        None
    }

    /// A closed select of `items`, focused on the first enabled one, with the
    /// placeholder `Select...`, a dropdown of eight rows, overlay mode and a
    /// border (no machine holds more items than the bound).
    pub fn new(items: Vec<SelectItem<T>>) -> (s: Self)
        requires
            items@.len() <= usize::MAX / 2,
        ensures
            s.setup() == (SelectSetup {
                items: items@,
                placeholder: seq!['S', 'e', 'l', 'e', 'c', 't', '.', '.', '.'],
                dropdown_height: 8u16,
                overlay_mode: true,
                borderless: false,
                custom_style: None,
                custom_focus_style: None,
            }),
            s.chosen().is_none(),
            s.focus() == (match first_up(select_off(items@), 0, items@.len() as int) {
                Some(i) => Some(i as usize),
                None => None,
            }),
            !s.open() && s.offset() == 0,
            !s.trigger_has_focus() && !s.dropdown_has_focus(),
            s.trigger_rect().is_none(),
            s.select_handler().is_none(),
    {
        let focused_index = Self::first_enabled(&items);
        proof {
            reveal_strlit("Select...");
            assert("Select..."@ =~= seq!['S', 'e', 'l', 'e', 'c', 't', '.', '.', '.']);
        }
        Select {
            items,
            selected_index: None,
            focused_index,
            placeholder: owned("Select..."),
            opened: false,
            scroll_offset: 0,
            dropdown_height: 8,
            trigger_focused: false,
            dropdown_focused: false,
            overlay_mode: true,
            borderless: false,
            custom_style: None,
            custom_focus_style: None,
            on_select: None,
            trigger_area: None,
        }
    }

    /// A select without items.
    pub fn empty() -> (s: Self)
        ensures
            s.entries().len() == 0,
            s.chosen().is_none() && s.focus().is_none(),
            !s.open() && s.offset() == 0,
            s.select_handler().is_none(),
    {
        Self::new(Vec::new())
    }

    /// Appends an enabled item; it takes the focus when no item has it.
    pub fn item(self, value: T, label: &str) -> (s: Self)
        requires
            self.entries().len() < usize::MAX / 2,
        ensures
            s.entries().len() == self.entries().len() + 1,
            s.entries().take(self.entries().len() as int) == self.entries(),
            s.entries().last().value == value && s.entries().last().label@ == label@,
            !s.entries().last().disabled,
            s.focus() == if self.focus().is_none() {
                Some(self.entries().len() as usize)
            } else {
                self.focus()
            },
            s.chosen() == self.chosen() && s.open() == self.open() && s.offset() == self.offset(),
            s.select_handler() == self.select_handler(),
    {
        proof { use_type_invariant(&self); }
        let mut items = self.items;
        items.push(SelectItem::new(value, label));
        let focused_index = match self.focused_index {
            Some(f) => Some(f),
            None => Some(items.len() - 1),
        };
        proof {
            assert(items@.take(self.items@.len() as int) =~= self.items@);
        }
        Select { items, focused_index, ..self }
    }

    /// Appends a disabled item.
    pub fn item_disabled(self, value: T, label: &str) -> (s: Self)
        requires
            self.entries().len() < usize::MAX / 2,
        ensures
            s.entries().len() == self.entries().len() + 1,
            s.entries().take(self.entries().len() as int) == self.entries(),
            s.entries().last().value == value && s.entries().last().label@ == label@,
            s.entries().last().disabled,
            s.focus() == self.focus(),
            s.chosen() == self.chosen() && s.open() == self.open() && s.offset() == self.offset(),
            s.select_handler() == self.select_handler(),
    {
        proof { use_type_invariant(&self); }
        let mut items = self.items;
        items.push(SelectItem::new(value, label).disabled(true));
        proof {
            assert(items@.take(self.items@.len() as int) =~= self.items@);
        }
        Select { items, ..self }
    }

    /// Sets the text shown when nothing is chosen.
    pub fn placeholder(self, placeholder: &str) -> (s: Self)
        ensures
            s.setup() == (SelectSetup { placeholder: placeholder@, ..self.setup() }),
            s.same_state(&self),
    {
        proof { use_type_invariant(&self); }
        Select { placeholder: owned(placeholder), ..self }
    }

    /// Chooses item `index`; ignored unless it names an enabled item.
    pub fn selected(self, index: Option<usize>) -> (s: Self)
        ensures
            s.chosen() == if (index matches Some(i) && i < self.entries().len() && !self.entries()[i as int].disabled) {
                index
            } else {
                self.chosen()
            },
            s.same_setup(&self),
            s.focus() == self.focus() && s.open() == self.open() && s.offset() == self.offset(),
    {
        proof { use_type_invariant(&self); }
        if let Some(idx) = index {
            if idx < self.items.len() && !self.items[idx].disabled {
                return Select { selected_index: Some(idx), ..self };
            }
        }
        self
    }

    /// Sets the rows of the dropdown; with none, moving the focus below the
    /// offset leaves the offset where it is (see `visible_offset`).
    pub fn dropdown_height(self, height: u16) -> (s: Self)
        ensures
            s.setup() == (SelectSetup { dropdown_height: height, ..self.setup() }),
            s.same_state(&self),
    {
        proof { use_type_invariant(&self); }
        Select { dropdown_height: height, ..self }
    }

    /// Sets the callback called with each choice.
    pub fn on_select<F: Fn(SelectEvent<T>) -> M + 'static>(self, handler: F) -> (s: Self)
        requires
            forall|a: (SelectEvent<T>,)| call_requires(handler, a),
        ensures
            s.select_handler().is_some(),
            forall|a: (SelectEvent<T>,), m: M| s.select_handler().unwrap().gives(a, m) == call_ensures(handler, a, m),
            s.setup() == self.setup(),
            s.chosen() == self.chosen() && s.focus() == self.focus() && s.open() == self.open(),
            s.offset() == self.offset(),
    {
        proof { use_type_invariant(&self); }
        let h: Box<dyn Handler<(SelectEvent<T>,), M>> = Box::new(handler);
        Select {
            items: self.items,
            selected_index: self.selected_index,
            focused_index: self.focused_index,
            placeholder: self.placeholder,
            opened: self.opened,
            scroll_offset: self.scroll_offset,
            dropdown_height: self.dropdown_height,
            trigger_focused: self.trigger_focused,
            dropdown_focused: self.dropdown_focused,
            overlay_mode: self.overlay_mode,
            borderless: self.borderless,
            custom_style: self.custom_style,
            custom_focus_style: self.custom_focus_style,
            on_select: Some(h),
            trigger_area: self.trigger_area,
        }
    }

    pub fn style(self, style: Style) -> (s: Self)
        ensures
            s.setup() == (SelectSetup { custom_style: Some(style), ..self.setup() }),
            s.same_state(&self),
    {
        proof { use_type_invariant(&self); }
        Select { custom_style: Some(style), ..self }
    }

    pub fn focus_style(self, style: Style) -> (s: Self)
        ensures
            s.setup() == (SelectSetup { custom_focus_style: Some(style), ..self.setup() }),
            s.same_state(&self),
    {
        proof { use_type_invariant(&self); }
        Select { custom_focus_style: Some(style), ..self }
    }

    /// Draw the dropdown over other widgets (on) or below the trigger, inside the
    /// select's own area (off).
    pub fn overlay_mode(self, enabled: bool) -> (s: Self)
        ensures
            s.setup() == (SelectSetup { overlay_mode: enabled, ..self.setup() }),
            s.same_state(&self),
    {
        proof { use_type_invariant(&self); }
        Select { overlay_mode: enabled, ..self }
    }

    pub fn borderless(self, enabled: bool) -> (s: Self)
        ensures
            s.setup() == (SelectSetup { borderless: enabled, ..self.setup() }),
            s.same_state(&self),
    {
        proof { use_type_invariant(&self); }
        Select { borderless: enabled, ..self }
    }

    /// The items.
    pub fn items(&self) -> (r: &Vec<SelectItem<T>>)
        ensures
            r@ == self.entries(),
    {
        &self.items
    }

    /// Whether the dropdown is open.
    pub fn is_opened(&self) -> (b: bool)
        ensures
            b == self.open(),
    {
        self.opened
    }

    /// The chosen index.
    pub fn selected_index(&self) -> (r: Option<usize>)
        ensures
            r == self.chosen(),
    {
        self.selected_index
    }

    /// The focused index in the dropdown.
    pub fn focused_index(&self) -> (r: Option<usize>)
        ensures
            r == self.focus(),
    {
        self.focused_index
    }

    /// The chosen value.
    pub fn get_selected(&self) -> (r: Option<&T>)
        ensures
            r == match self.chosen() {
                Some(i) => Some(&self.entries()[i as int].value),
                None => None,
            },
    {
        proof { use_type_invariant(self); }
        match self.selected_index {
            Some(idx) => Some(&self.items[idx].value),
            None => None,
        }
    }

    /// Padding and border, from the borderless flag.
    pub fn style_config(&self) -> (c: StyleConfig)
        ensures
            c == if self.setup().borderless {
                StyleConfig { content_padding_x: 1, content_padding_y: 0, border_offset: 0 }
            } else {
                StyleConfig { content_padding_x: 2, content_padding_y: 1, border_offset: 1 }
            },
    {
        StyleConfig::from_borderless(self.borderless)
    }

    /// The trigger's text: the chosen item's label, else the placeholder.
    pub fn get_trigger_text(&self) -> (t: String)
        ensures
            t@ == match self.chosen() {
                Some(i) => self.entries()[i as int].label@,
                None => self.setup().placeholder,
            },
    {
        proof { use_type_invariant(self); }
        match self.selected_index {
            Some(idx) => owned(self.items[idx].label.as_str()),
            None => owned(self.placeholder.as_str()),
        }
    }

    /// Scrolls so that the focused item is in the dropdown.
    fn ensure_focused_visible(&mut self)
        ensures
            final(self).offset() == match old(self).focus() {
                Some(f) => visible_offset(old(self).offset() as int, old(self).setup().dropdown_height as int, f as int) as usize,
                None => old(self).offset(),
            },
            final(self).same_setup(old(self)),
            final(self).chosen() == old(self).chosen() && final(self).focus() == old(self).focus(),
            final(self).open() == old(self).open(),
            final(self).trigger_has_focus() == old(self).trigger_has_focus(),
            final(self).dropdown_has_focus() == old(self).dropdown_has_focus(),
            final(self).trigger_rect() == old(self).trigger_rect(),
    {
        proof { use_type_invariant(&*self); }
        if let Some(focused_idx) = self.focused_index {
            let viewport_size = self.dropdown_height as usize;
            if focused_idx < self.scroll_offset {
                self.scroll_offset = focused_idx;
            } else if viewport_size > 0 && focused_idx >= self.scroll_offset + viewport_size {
                self.scroll_offset = focused_idx - (viewport_size - 1);
            }
        }
    }

    /// Opens or closes the dropdown; on opening, focus goes to the chosen item,
    /// or to the first enabled one when none is focused, and is scrolled into view.
    pub fn toggle_dropdown(&mut self)
        ensures
            final(self).toggled_from(old(self)),
            final(self).open() == !old(self).open(),
            final(self).same_setup(old(self)),
            final(self).chosen() == old(self).chosen(),
            final(self).trigger_has_focus() == old(self).trigger_has_focus(),
            final(self).dropdown_has_focus() == old(self).dropdown_has_focus(),
            final(self).trigger_rect() == old(self).trigger_rect(),
            old(self).open() ==> final(self).focus() == old(self).focus() && final(self).offset() == old(self).offset(),
            !old(self).open() ==> final(self).focus() == (if old(self).chosen().is_some() {
                old(self).chosen()
            } else if old(self).focus().is_none() {
                match first_up(select_off(old(self).entries()), 0, old(self).entries().len() as int) {
                    Some(i) => Some(i as usize),
                    None => None,
                }
            } else {
                old(self).focus()
            }) && final(self).offset() == match final(self).focus() {
                Some(f) => visible_offset(old(self).offset() as int, old(self).setup().dropdown_height as int, f as int) as usize,
                None => old(self).offset(),
            },
    {
        proof { use_type_invariant(&*self); }
        self.opened = !self.opened;
        if self.opened {
            if let Some(selected) = self.selected_index {
                self.focused_index = Some(selected);
            } else if self.focused_index.is_none() {
                self.focused_index = Self::first_enabled(&self.items);
            }
            self.ensure_focused_visible();
        }
    }

    /// Closes the dropdown.
    pub fn close_dropdown(&mut self)
        ensures
            final(self).closed_from(old(self)),
            !final(self).open(),
            final(self).same_setup(old(self)),
            final(self).chosen() == old(self).chosen() && final(self).focus() == old(self).focus(),
            final(self).offset() == old(self).offset(),
            final(self).trigger_has_focus() == old(self).trigger_has_focus(),
            final(self).dropdown_has_focus() == old(self).dropdown_has_focus(),
            final(self).trigger_rect() == old(self).trigger_rect(),
    {
        proof { use_type_invariant(&*self); }
        self.opened = false;
    }

    /// Focuses the next enabled item, wrapping around, and scrolls it into view;
    /// nothing changes without items or with all of them disabled.
    pub fn focus_next(&mut self)
        ensures
            final(self).next_done(old(self)),
            final(self).same_setup(old(self)),
            final(self).chosen() == old(self).chosen() && final(self).open() == old(self).open(),
            final(self).trigger_has_focus() == old(self).trigger_has_focus(),
            final(self).dropdown_has_focus() == old(self).dropdown_has_focus(),
            final(self).trigger_rect() == old(self).trigger_rect(),
            ({
                let n = old(self).entries().len() as int;
                let t = if n == 0 {
                    None
                } else {
                    scan_forward(select_off(old(self).entries()), next_start(old(self).focus()), n, 0)
                };
                match t {
                    Some(f) => final(self).focus() == Some(f as usize) && final(self).offset() == visible_offset(
                        old(self).offset() as int,
                        old(self).setup().dropdown_height as int,
                        f,
                    ),
                    None => final(self).focus() == old(self).focus() && final(self).offset() == old(self).offset(),
                }
            }),
    {
        proof { use_type_invariant(&*self); }
        let n = self.items.len();
        if n == 0 {
            return;
        }
        if let Some(idx) = self.scan_next() {
            self.focused_index = Some(idx);
            self.ensure_focused_visible();
        }
    }

    /// Focuses the previous enabled item, wrapping around, and scrolls it into
    /// view; nothing changes without items or with all of them disabled.
    pub fn focus_previous(&mut self)
        ensures
            final(self).previous_done(old(self)),
            final(self).same_setup(old(self)),
            final(self).chosen() == old(self).chosen() && final(self).open() == old(self).open(),
            final(self).trigger_has_focus() == old(self).trigger_has_focus(),
            final(self).dropdown_has_focus() == old(self).dropdown_has_focus(),
            final(self).trigger_rect() == old(self).trigger_rect(),
            ({
                let n = old(self).entries().len() as int;
                let t = if n == 0 {
                    None
                } else {
                    scan_backward(select_off(old(self).entries()), previous_start(old(self).focus(), n), n, 0)
                };
                match t {
                    Some(f) => final(self).focus() == Some(f as usize) && final(self).offset() == visible_offset(
                        old(self).offset() as int,
                        old(self).setup().dropdown_height as int,
                        f,
                    ),
                    None => final(self).focus() == old(self).focus() && final(self).offset() == old(self).offset(),
                }
            }),
    {
        proof { use_type_invariant(&*self); }
        let n = self.items.len();
        if n == 0 {
            return;
        }
        if let Some(idx) = self.scan_previous() {
            self.focused_index = Some(idx);
            self.ensure_focused_visible();
        }
    }

    /// The next enabled item after the focused one, wrapping around.
    fn scan_next(&self) -> (r: Option<usize>)
        requires
            self.entries().len() > 0,
        ensures
            (match r {
                Some(i) => Some(i as int),
                None => None,
            }) == scan_forward(select_off(self.entries()), next_start(self.focus()), self.entries().len() as int, 0),
            r matches Some(i) ==> i < self.entries().len(),
    {
        proof { use_type_invariant(self); }
        let n = self.items.len();
        let ghost dis = select_off(self.items@);
        let start_idx: usize = match self.focused_index {
            Some(i) => i + 1,
            None => 0,
        };
        let mut offset: usize = 0;
        while offset < n
            invariant
                n == self.items@.len(),
                n > 0,
                n <= usize::MAX / 2,
                start_idx <= n,
                start_idx == next_start(self.focused_index),
                offset <= n,
                dis == select_off(self.items@),
                scan_forward(dis, start_idx as int, n as int, offset as int) == scan_forward(dis, start_idx as int, n as int, 0),
            decreases n - offset,
        {
            let idx = (start_idx + offset) % n;
            if !self.items[idx].disabled {
                return Some(idx);
            }
            offset = offset + 1;
        }
        None
    }

    /// The previous enabled item before the focused one, wrapping around.
    fn scan_previous(&self) -> (r: Option<usize>)
        requires
            self.entries().len() > 0,
        ensures
            (match r {
                Some(i) => Some(i as int),
                None => None,
            }) == scan_backward(select_off(self.entries()), previous_start(self.focus(), self.entries().len() as int), self.entries().len() as int, 0),
            r matches Some(i) ==> i < self.entries().len(),
    {
        proof { use_type_invariant(self); }
        let n = self.items.len();
        let ghost dis = select_off(self.items@);
        let start_idx: usize = match self.focused_index {
            Some(i) => if i >= 1 {
                i - 1
            } else {
                n - 1
            },
            None => n - 1,
        };
        let mut offset: usize = 0;
        while offset < n
            invariant
                n == self.items@.len(),
                n > 0,
                n <= usize::MAX / 2,
                start_idx < n,
                start_idx == previous_start(self.focused_index, n as int),
                offset <= n,
                dis == select_off(self.items@),
                scan_backward(dis, start_idx as int, n as int, offset as int) == scan_backward(dis, start_idx as int, n as int, 0),
            decreases n - offset,
        {
            let idx = (start_idx + n - offset) % n;
            if !self.items[idx].disabled {
                return Some(idx);
            }
            offset = offset + 1;
        }
        None
    }

    /// Chooses the focused item, closes the dropdown and gives the callback's
    /// message; nothing happens without focus or on a disabled item.
    pub fn select_focused(&mut self) -> (out: Vec<M>)
        ensures
            final(self).chose_from(old(self), out@),
            final(self).same_setup(old(self)),
            final(self).focus() == old(self).focus() && final(self).offset() == old(self).offset(),
            final(self).trigger_has_focus() == old(self).trigger_has_focus(),
            final(self).dropdown_has_focus() == old(self).dropdown_has_focus(),
            final(self).trigger_rect() == old(self).trigger_rect(),
            match old(self).focus() {
                Some(f) => if old(self).entries()[f as int].disabled {
                    final(self).chosen() == old(self).chosen() && final(self).open() == old(self).open()
                        && out@.len() == 0
                } else {
                    final(self).chosen() == Some(f) && !final(self).open() && choice_fired(
                        old(self).select_handler(),
                        old(self).entries(),
                        f,
                        out@,
                    )
                },
                None => final(self).chosen() == old(self).chosen() && final(self).open() == old(self).open()
                    && out@.len() == 0,
            },
    {
        proof { use_type_invariant(&*self); }
        let focused_idx = match self.focused_index {
            Some(i) => i,
            None => {
                return Vec::new();
            },
        };
        if self.items[focused_idx].disabled {
            return Vec::new();
        }
        self.selected_index = Some(focused_idx);
        self.opened = false;
        match &self.on_select {
            Some(h) => {
                let event = SelectEvent { value: self.items[focused_idx].value.clone(), index: focused_idx };
                let ghost e = event;
                let m = h.call((event,));
                let mut out = Vec::new();
                out.push(m);
                proof {
                    assert(h.gives((e,), out@[0]));
                }
                out
            },
            None => Vec::new(),
        }
    }

    /// Remembers where the trigger was drawn, for telling which clicks hit it.
    pub fn set_trigger_area(&mut self, area: Option<Rect>)
        ensures
            final(self).trigger_rect() == area,
            final(self).same_setup(old(self)),
            final(self).chosen() == old(self).chosen() && final(self).focus() == old(self).focus(),
            final(self).open() == old(self).open() && final(self).offset() == old(self).offset(),
            final(self).trigger_has_focus() == old(self).trigger_has_focus(),
            final(self).dropdown_has_focus() == old(self).dropdown_has_focus(),
    {
        proof { use_type_invariant(&*self); }
        self.trigger_area = area;
    }

    /// A left click: on the trigger it opens or closes the dropdown; in the open
    /// dropdown it chooses the item under it; elsewhere it closes the open
    /// dropdown. Without a known trigger area the click is ignored.
    pub fn handle_mouse_click(&mut self, mouse_event: &MouseEvent) -> (r: EventResult<M>)
        ensures
            match old(self).trigger_rect() {
                None => r is Ignored && *final(self) == *old(self),
                Some(ta) => if in_area(ta, mouse_event.column, mouse_event.row) {
                    (r matches EventResult::Consumed(v) && v@.len() == 0) && final(self).toggled_from(old(self))
                } else if !old(self).open() {
                    r is Ignored && *final(self) == *old(self)
                } else if old(self).in_dropdown(ta, mouse_event.column, mouse_event.row) {
                    if old(self).click_index(ta, mouse_event.row) < old(self).entries().len() {
                        r matches EventResult::Consumed(v) && final(self).chose_at(
                            old(self),
                            old(self).click_index(ta, mouse_event.row) as usize,
                            v@,
                        )
                    } else {
                        r is Ignored && *final(self) == *old(self)
                    }
                } else {
                    (r matches EventResult::Consumed(v) && v@.len() == 0) && final(self).closed_from(old(self))
                },
            },
    {
        proof { use_type_invariant(&*self); }
        let ta = match self.trigger_area {
            Some(a) => a,
            None => {
                return EventResult::Ignored;
            },
        };
        let col = mouse_event.column as u32;
        let row = mouse_event.row as u32;
        let tx = ta.x as u32;
        let ty = ta.y as u32;
        let tw = ta.width as u32;
        let th = ta.height as u32;
        if col >= tx && col < tx + tw && row >= ty && row < ty + th {
            self.toggle_dropdown();
            return EventResult::Consumed(Vec::new());
        }
        if !self.opened {
            return EventResult::Ignored;
        }
        let config = self.style_config();
        let dropdown_y: u32 = if self.overlay_mode {
            ty + th
        } else {
            ty + config.trigger_height() as u32
        };
        let n = self.items.len();
        let shown: u16 = if (n as u16) < self.dropdown_height {
            n as u16
        } else {
            self.dropdown_height
        };
        let dropdown_h: u32 = shown as u32 + config.dropdown_border_offset() as u32;
        if col >= tx && col < tx + tw && row >= dropdown_y && row < dropdown_y + dropdown_h {
            let top = dropdown_y + config.border_offset as u32;
            let rel: u32 = if row >= top {
                row - top
            } else {
                0
            };
            let clicked_idx = self.scroll_offset + rel as usize;
            if clicked_idx < n {
                self.focused_index = Some(clicked_idx);
                let messages = self.select_focused();
                return EventResult::Consumed(messages);
            }
            EventResult::Ignored
        } else {
            self.close_dropdown();
            EventResult::Consumed(Vec::new())
        }
    }
}

/// What an event does to a select.
pub enum SelectStep {
    Ignore,
    Next,
    Previous,
    Choose,
    Close,
    Toggle,
    Click,
}

/// With the dropdown open, Down and Up move focus, Enter or Space choose, Esc
/// closes; with it closed, Enter, Space or Down open it. A left click is
/// handled by where it lands; a right click closes the open dropdown.
pub open spec fn select_step(open: bool, ev: Event) -> SelectStep {
    match ev {
        Event::Key(k) => if open {
            if k.code == KeyCode::Down {
                SelectStep::Next
            } else if k.code == KeyCode::Up {
                SelectStep::Previous
            } else if k.code == KeyCode::Enter || k.code == KeyCode::Char(' ') {
                SelectStep::Choose
            } else if k.code == KeyCode::Esc {
                SelectStep::Close
            } else {
                SelectStep::Ignore
            }
        } else if k.code == KeyCode::Enter || k.code == KeyCode::Char(' ') || k.code == KeyCode::Down {
            SelectStep::Toggle
        } else {
            SelectStep::Ignore
        },
        Event::Mouse(m) => if m.kind == MouseEventKind::Down(MouseButton::Left) {
            SelectStep::Click
        } else if m.kind == MouseEventKind::Down(MouseButton::Right) && open {
            SelectStep::Close
        } else {
            SelectStep::Ignore
        },
        _ => SelectStep::Ignore,
    }
}

/// The size a select asks for: its widest label (or the placeholder when
/// empty) plus padding, four columns borderless or six bordered, at least 20
/// (capped at the largest `u16`); the trigger's rows, plus the dropdown's when
/// it is open inline.
pub open spec fn select_size<T: Clone>(s: SelectSetup<T>, open: bool) -> (u16, u16) {
    let widest_label = if s.items.len() > 0 {
        widest(s.items.map_values(|it: SelectItem<T>| text_width(it.label@)), s.items.len() as int)
    } else {
        cells16(text_width(s.placeholder))
    };
    let w = widest_label + if s.borderless {
        4int
    } else {
        6int
    };
    let w16 = if w > u16::MAX {
        u16::MAX as int
    } else {
        w
    };
    let trigger = if s.borderless {
        1int
    } else {
        3int
    };
    let h = if !s.overlay_mode && open {
        trigger + dropdown_rows(s.items.len(), s.dropdown_height, s.borderless)
    } else {
        trigger
    };
    ((if w16 > 20 {
        w16
    } else {
        20
    }) as u16, (if h > u16::MAX {
        u16::MAX as int
    } else {
        h
    }) as u16)
}

impl<T: Clone, M> Widget<M> for Select<T, M> {
    open spec fn can_focus(&self) -> bool {
        true
    }

    open spec fn focus_flag(&self) -> bool {
        self.trigger_has_focus() || self.dropdown_has_focus()
    }

    open spec fn keeps_focus(&self) -> bool {
        !self.dropdown_has_focus()
    }

    /// An event that is no step of the select.
    open spec fn passes_over(&self, event: Event) -> bool {
        select_step(self.open(), event) is Ignore
    }

    fn handle_event(&mut self, event: &Event) -> (r: EventResult<M>)
        ensures
            match select_step(old(self).open(), *event) {
                SelectStep::Ignore => r is Ignored && *final(self) == *old(self),
                SelectStep::Next => (r matches EventResult::Consumed(v) && v@.len() == 0) && final(self).next_done(old(self)),
                SelectStep::Previous => (r matches EventResult::Consumed(v) && v@.len() == 0) && final(self).previous_done(old(self)),
                SelectStep::Choose => r matches EventResult::Consumed(v) && final(self).chose_from(old(self), v@),
                SelectStep::Close => (r matches EventResult::Consumed(v) && v@.len() == 0) && final(self).closed_from(old(self)),
                SelectStep::Toggle => (r matches EventResult::Consumed(v) && v@.len() == 0) && final(self).toggled_from(old(self)),
                SelectStep::Click => match *event {
                    Event::Mouse(m) => match old(self).trigger_rect() {
                        None => r is Ignored && *final(self) == *old(self),
                        Some(ta) => if in_area(ta, m.column, m.row) {
                            (r matches EventResult::Consumed(v) && v@.len() == 0) && final(self).toggled_from(old(self))
                        } else if !old(self).open() {
                            r is Ignored && *final(self) == *old(self)
                        } else if old(self).in_dropdown(ta, m.column, m.row) {
                            if old(self).click_index(ta, m.row) < old(self).entries().len() {
                                r matches EventResult::Consumed(v) && final(self).chose_at(
                                    old(self),
                                    old(self).click_index(ta, m.row) as usize,
                                    v@,
                                )
                            } else {
                                r is Ignored && *final(self) == *old(self)
                            }
                        } else {
                            (r matches EventResult::Consumed(v) && v@.len() == 0) && final(self).closed_from(old(self))
                        },
                    },
                    _ => false,
                },
            },
    {
        match event {
            Event::Key(key_event) => {
                let code = key_event.code;
                let enter_or_space = match code {
                    KeyCode::Enter => true,
                    KeyCode::Char(c) => c == ' ',
                    _ => false,
                };
                if self.opened {
                    match code {
                        KeyCode::Down => {
                            self.focus_next();
                            EventResult::Consumed(Vec::new())
                        },
                        KeyCode::Up => {
                            self.focus_previous();
                            EventResult::Consumed(Vec::new())
                        },
                        KeyCode::Esc => {
                            self.close_dropdown();
                            EventResult::Consumed(Vec::new())
                        },
                        _ => if enter_or_space {
                            let messages = self.select_focused();
                            EventResult::Consumed(messages)
                        } else {
                            EventResult::Ignored
                        },
                    }
                } else {
                    let down = match code {
                        KeyCode::Down => true,
                        _ => false,
                    };
                    if enter_or_space || down {
                        self.toggle_dropdown();
                        EventResult::Consumed(Vec::new())
                    } else {
                        EventResult::Ignored
                    }
                }
            },
            Event::Mouse(mouse_event) => match mouse_event.kind {
                MouseEventKind::Down(MouseButton::Left) => self.handle_mouse_click(mouse_event),
                MouseEventKind::Down(MouseButton::Right) => if self.opened {
                    self.close_dropdown();
                    EventResult::Consumed(Vec::new())
                } else {
                    EventResult::Ignored
                },
                _ => EventResult::Ignored,
            },
            _ => EventResult::Ignored,
        }
    }

    fn constraints(&self) -> (c: Constraints)
        ensures
            ({
                let (w, h) = select_size(self.setup(), self.open());
                c@ == (ConstraintsView {
                    min_width: w,
                    max_width: Some(w),
                    min_height: h,
                    max_height: Some(h),
                    flex: None,
                })
            }),
    {
        let ghost ws = self.items@.map_values(|it: SelectItem<T>| text_width(it.label@));
        let n = self.items.len();
        let widest_label: u16 = if n > 0 {
            let mut m: u16 = 0;
            let mut i: usize = 0;
            while i < n
                invariant
                    n == self.items@.len(),
                    ws == self.items@.map_values(|it: SelectItem<T>| text_width(it.label@)),
                    i <= n,
                    m == widest(ws, i as int),
                decreases n - i,
            {
                let w = str_width(self.items[i].label.as_str());
                proof {
                    assert(ws[i as int] == text_width(self.items@[i as int].label@));
                }
                let cells = (w % 0x10000) as u16;
                if cells > m {
                    m = cells;
                }
                i = i + 1;
            }
            m
        } else {
            (str_width(self.placeholder.as_str()) % 0x10000) as u16
        };
        let config = self.style_config();
        let pad: u16 = if self.borderless {
            4
        } else {
            6
        };
        let w = widest_label.saturating_add(pad);
        let width = if w > 20 {
            w
        } else {
            20
        };
        let trigger = config.trigger_height();
        let height = if !self.overlay_mode && self.opened {
            let shown: u16 = if (n as u16) < self.dropdown_height {
                n as u16
            } else {
                self.dropdown_height
            };
            trigger.saturating_add(shown).saturating_add(config.dropdown_border_offset())
        } else {
            trigger
        };
        Constraints { min_width: width, max_width: Some(width), min_height: height, max_height: Some(height), flex: None }
    }

    /// A select can always take focus.
    fn focusable(&self) -> (b: bool)
        ensures
            b,
    {
        true
    }

    fn is_focused(&self) -> (b: bool)
        ensures
            b == (self.trigger_has_focus() || self.dropdown_has_focus()),
    {
        self.trigger_focused || self.dropdown_focused
    }

    /// Sets the trigger's focus; losing focus closes the dropdown.
    fn set_focused(&mut self, focused: bool)
        ensures
            final(self).trigger_has_focus() == focused,
            final(self).open() == (old(self).open() && focused),
            final(self).same_setup(old(self)),
            final(self).chosen() == old(self).chosen() && final(self).focus() == old(self).focus(),
            final(self).offset() == old(self).offset(),
            final(self).dropdown_has_focus() == old(self).dropdown_has_focus(),
            final(self).trigger_rect() == old(self).trigger_rect(),
    {
        proof { use_type_invariant(&*self); }
        self.trigger_focused = focused;
        if !focused {
            self.opened = false;
        }
    }
}

/// A new select without items.
pub fn select<T: Clone, M>() -> (s: Select<T, M>)
    ensures
        s.entries().len() == 0,
        s.chosen().is_none() && s.focus().is_none(),
        !s.open() && s.offset() == 0,
        s.select_handler().is_none(),
{
    Select::empty()
}


/// What a dropdown row draws, as plain values: a background of `fill_width`
/// columns from `fill_x` on line `y`, the indicator at `indicator_x` and the
/// label at `label_x`, all in `style`.
pub struct RowView {
    pub style: Style,
    pub fill_x: u16,
    pub y: u16,
    pub fill_width: u16,
    pub indicator: Seq<char>,
    pub indicator_x: u16,
    pub label_x: u16,
    pub label: Seq<char>,
}

/// A dropdown row to draw.
pub struct ItemRow {
    pub style: Style,
    pub fill_x: u16,
    pub y: u16,
    pub fill_width: u16,
    pub indicator: String,
    pub indicator_x: u16,
    pub label_x: u16,
    pub label: String,
}

impl ItemRow {
    pub open spec fn view(&self) -> RowView {
        RowView {
            style: self.style,
            fill_x: self.fill_x,
            y: self.y,
            fill_width: self.fill_width,
            indicator: self.indicator@,
            indicator_x: self.indicator_x,
            label_x: self.label_x,
            label: self.label@,
        }
    }
}

/// The paddings of `config` leave room for the indicator within a `u16`.
pub open spec fn padding_fits(config: StyleConfig) -> bool {
    2 * config.content_padding_x + 2 <= u16::MAX
}

/// The row an item draws on line `y` in `width` columns: filled from the
/// border in the item's style, the bullet `• ` when selected (two spaces else)
/// after the padding, then the label cut to the room left before the right
/// padding.
pub open spec fn row_plan<T: Clone>(
    item: SelectItem<T>,
    y: u16,
    width: u16,
    config: StyleConfig,
    styles: DropdownStyles,
    is_focused: bool,
    is_selected: bool,
) -> RowView {
    let label_x = (config.content_padding_x + 2) as u16;
    let avail = if width > label_x + config.content_padding_x {
        width - (label_x + config.content_padding_x)
    } else {
        0
    };
    RowView {
        style: if item.disabled {
            styles.disabled
        } else if is_selected {
            styles.selected
        } else if is_focused {
            styles.focused
        } else {
            styles.normal
        },
        fill_x: config.border_offset,
        y,
        fill_width: width,
        indicator: if is_selected {
            seq!['•', ' ']
        } else {
            seq![' ', ' ']
        },
        indicator_x: config.content_padding_x,
        label_x,
        label: truncated(item.label@, avail),
    }
}

/// The row one item draws (see `row_plan`).
pub fn render_item<T: Clone>(
    item: &SelectItem<T>,
    y: u16,
    width: u16,
    config: &StyleConfig,
    styles: &DropdownStyles,
    is_focused: bool,
    is_selected: bool,
) -> (row: ItemRow)
    requires
        padding_fits(*config),
    ensures
        row.view() == row_plan(*item, y, width, *config, *styles, is_focused, is_selected),
{
    let style = styles.item_style(item.disabled, is_selected, is_focused);
    let indicator = if is_selected {
        let mut s = String::new();
        push_char(&mut s, '•');
        push_char(&mut s, ' ');
        s
    } else {
        let mut s = String::new();
        push_char(&mut s, ' ');
        push_char(&mut s, ' ');
        s
    };
    let indicator_x = config.content_padding_x;
    let label_x = indicator_x + 2;
    let available = width.saturating_sub(label_x + config.content_padding_x);
    let label = truncate_text(item.label.as_str(), available);
    let row = ItemRow {
        style,
        fill_x: config.border_offset,
        y,
        fill_width: width,
        indicator,
        indicator_x,
        label_x,
        label,
    };
    proof {
        assert(row.view().indicator =~= row_plan(*item, y, width, *config, *styles, is_focused, is_selected).indicator);
    }
    row
}

/// What a trigger draws in `width` by `height` cells, as plain values.
pub struct TriggerView {
    pub bordered: bool,
    pub fill: (u16, u16, u16, u16),
    pub text_x: u16,
    pub text_y: u16,
    pub text: Seq<char>,
    pub indicator: char,
    pub indicator_x: u16,
}

/// A trigger to draw.
pub struct TriggerPlan {
    pub bordered: bool,
    pub fill: (u16, u16, u16, u16),
    pub text_x: u16,
    pub text_y: u16,
    pub text: String,
    pub indicator: char,
    pub indicator_x: u16,
}

impl TriggerPlan {
    pub open spec fn view(&self) -> TriggerView {
        TriggerView {
            bordered: self.bordered,
            fill: self.fill,
            text_x: self.text_x,
            text_y: self.text_y,
            text: self.text@,
            indicator: self.indicator,
            indicator_x: self.indicator_x,
        }
    }
}

/// `a - b`, or zero.
pub open spec fn minus16(a: u16, b: int) -> u16 {
    if a > b {
        (a - b) as u16
    } else {
        0
    }
}

/// What a trigger draws: nothing in an empty area; else the area filled
/// (inside a single border when bordered), the text after the padding cut to
/// the room left before the padding and the indicator, and `▲` (open) or `▼`
/// (closed) one column before the right padding.
pub open spec fn trigger_plan(text: Seq<char>, is_opened: bool, config: StyleConfig, width: u16, height: u16) -> Option<
    TriggerView,
> {
    if width == 0 || height == 0 {
        None
    } else {
        let px = config.content_padding_x;
        Some(
            TriggerView {
                bordered: config.border_offset > 0,
                fill: if config.border_offset > 0 {
                    (1u16, 1u16, minus16(width, 2), minus16(height, 2))
                } else {
                    (0u16, 0u16, width, height)
                },
                text_x: px,
                text_y: config.content_padding_y,
                text: truncated(text, minus16(width, px + px + 2) as int),
                indicator: if is_opened {
                    '▲'
                } else {
                    '▼'
                },
                indicator_x: minus16(width, px + 1),
            },
        )
    }
}

/// What the trigger draws in a `width` by `height` area (see `trigger_plan`).
pub fn render_trigger(trigger_text: &str, is_opened: bool, config: &StyleConfig, width: u16, height: u16) -> (r: Option<
    TriggerPlan,
>)
    requires
        padding_fits(*config),
    ensures
        match r {
            Some(p) => trigger_plan(trigger_text@, is_opened, *config, width, height) == Some(p.view()),
            None => trigger_plan(trigger_text@, is_opened, *config, width, height).is_none(),
        },
{
    if width == 0 || height == 0 {
        return None;
    }
    let px = config.content_padding_x;
    let bordered = config.border_offset > 0;
    let fill = if bordered {
        (1u16, 1u16, width.saturating_sub(2), height.saturating_sub(2))
    } else {
        (0u16, 0u16, width, height)
    };
    let available = width.saturating_sub(px + px + 2);
    let text = truncate_text(trigger_text, available);
    let indicator = if is_opened {
        '▲'
    } else {
        '▼'
    };
    Some(
        TriggerPlan {
            bordered,
            fill,
            text_x: px,
            text_y: config.content_padding_y,
            text,
            indicator,
            indicator_x: width.saturating_sub(px + 1),
        },
    )
}

/// The scrollbar of a dropdown: its column, the area's height, the rows shown,
/// the items and the scroll offset.
pub struct ScrollbarSpan {
    pub x: u16,
    pub height: u16,
    pub viewport: usize,
    pub total: usize,
    pub offset: usize,
}

/// What a dropdown draws in a `width` by `height` area.
pub struct DropdownPlan {
    pub bordered: bool,
    pub rows: Vec<ItemRow>,
    pub scrollbar: Option<ScrollbarSpan>,
}

/// How many rows a dropdown draws: the items from the offset on, at most as
/// many as fit between the top padding and the bottom border.
pub open spec fn shown_rows(n: int, offset: int, config: StyleConfig, height: u16) -> int {
    let visible = minus16(height, if config.border_offset == 0 {
        0
    } else {
        2
    }) as int;
    let end = if offset + visible < n {
        offset + visible
    } else {
        n
    };
    let by_items = if end > offset {
        end - offset
    } else {
        0
    };
    let limit = minus16(height, config.border_offset as int) as int;
    let by_lines = if limit > config.content_padding_y {
        limit - config.content_padding_y
    } else {
        0
    };
    if by_items < by_lines {
        by_items
    } else {
        by_lines
    }
}

/// What a dropdown of `items` draws in a `width` by `height` area: nothing in
/// an empty area; else, whether bordered, one row (see `row_plan`) for each
/// shown item (see `shown_rows`) from the offset on, down from the top
/// padding, focused when it is the focused enabled item, and a scrollbar when
/// asked for.
pub fn render_dropdown<T: Clone>(
    items: &[SelectItem<T>],
    focused_index: Option<usize>,
    selected_index: Option<usize>,
    scroll_offset: usize,
    config: &StyleConfig,
    styles: &DropdownStyles,
    show_scrollbar: bool,
    scrollbar_x: u16,
    width: u16,
    height: u16,
) -> (r: Option<DropdownPlan>)
    requires
        padding_fits(*config),
        scroll_offset + minus16(height, if config.border_offset == 0 {
            0
        } else {
            2
        }) <= usize::MAX,
    ensures
        (width == 0 || height == 0) <==> r.is_none(),
        r matches Some(p) ==> {
            &&& p.bordered == (config.border_offset > 0)
            &&& p.rows@.len() == shown_rows(items@.len() as int, scroll_offset as int, *config, height)
            &&& forall|j: int|
                0 <= j < p.rows@.len() ==> {
                    let idx = scroll_offset + j;
                    (#[trigger] p.rows@[j]).view() == row_plan(
                        items@[idx],
                        (config.content_padding_y + j) as u16,
                        minus16(width, 2 * config.border_offset),
                        *config,
                        *styles,
                        focused_index == Some(idx as usize) && !items@[idx].disabled,
                        selected_index == Some(idx as usize),
                    )
                }
            &&& p.scrollbar.is_some() == show_scrollbar
            &&& p.scrollbar matches Some(b) ==> b.x == scrollbar_x && b.height == height && b.viewport == minus16(
                height,
                if config.border_offset == 0 {
                    0
                } else {
                    2
                },
            ) && b.total == items@.len() && b.offset == scroll_offset
        },
{
    if width == 0 || height == 0 {
        return None;
    }
    let border = config.border_offset;
    let content_width = if border <= 32767 {
        width.saturating_sub(border * 2)
    } else {
        0
    };
    let visible_height = height.saturating_sub(config.dropdown_border_offset()) as usize;
    let n = items.len();
    let visible_end = if scroll_offset + visible_height < n {
        scroll_offset + visible_height
    } else {
        n
    };
    let limit = height.saturating_sub(border);
    let mut rows: Vec<ItemRow> = Vec::new();
    let mut y = config.content_padding_y;
    let mut idx = scroll_offset;
    let ghost count = shown_rows(n as int, scroll_offset as int, *config, height);
    while idx < visible_end && y < limit
        invariant
            n == items@.len(),
            scroll_offset <= idx,
            visible_end <= n,
            idx <= visible_end || idx == scroll_offset,
            y as int == config.content_padding_y + (idx - scroll_offset),
            rows@.len() == idx - scroll_offset,
            padding_fits(*config),
            content_width == minus16(width, 2 * config.border_offset),
            limit == minus16(height, config.border_offset as int),
            visible_end == (if scroll_offset + visible_height < n {
                scroll_offset + visible_height
            } else {
                n as int
            }),
            visible_height == minus16(height, if config.border_offset == 0 {
                0
            } else {
                2
            }),
            count == shown_rows(n as int, scroll_offset as int, *config, height),
            rows@.len() <= count,
            forall|j: int|
                0 <= j < rows@.len() ==> {
                    let k = scroll_offset + j;
                    (#[trigger] rows@[j]).view() == row_plan(
                        items@[k],
                        (config.content_padding_y + j) as u16,
                        content_width,
                        *config,
                        *styles,
                        focused_index == Some(k as usize) && !items@[k].disabled,
                        selected_index == Some(k as usize),
                    )
                },
        decreases visible_end - idx,
    {
        let item = &items[idx];
        let is_focused = match focused_index {
            Some(f) => f == idx && !item.disabled,
            None => false,
        };
        let is_selected = match selected_index {
            Some(s) => s == idx,
            None => false,
        };
        let row = render_item(item, y, content_width, config, styles, is_focused, is_selected);
        rows.push(row);
        idx = idx + 1;
        y = y + 1;
    }
    let scrollbar = if show_scrollbar {
        Some(ScrollbarSpan { x: scrollbar_x, height, viewport: visible_height, total: n, offset: scroll_offset })
    } else {
        None
    };
    Some(DropdownPlan { bordered: border > 0, rows, scrollbar })
}

} // verus!
