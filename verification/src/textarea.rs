//! A multi-line text area: typing and Enter insert at the cursor, Backspace and
//! Delete remove around it (or the selection), the arrows move it by character
//! and by line (keeping the column), Home and End go to the line's ends,
//! Control+A selects everything and Control+Enter submits.

use vstd::prelude::*;
use crate::event::{Event, EventResult, KeyCode, Widget};
use crate::handler::{handler_ready, Handler};
use crate::layout::{Constraints, ConstraintsView};
use crate::style::{make_style, merged, styled, Style};
use crate::text::{chars_of, decimal_text, insert_char_at, owned, push_char, push_decimal, push_str, remove_chars, split, split_bounds, string_from_range};
use crate::code_block::spaces;
use crate::text_input::{cells_of, fire_text, text_fired};
use crate::theme::Theme;
use crate::width::{char_width, str_width, text_width};
use crate::navigation::visible_offset;

verus! {

/// How a text area looks.
#[derive(Debug, Clone, Copy, PartialEq, Eq, Structural)]
pub enum TextareaVariant {
    /// A full border
    Default,
    /// A bottom border only
    Borderless,
}

impl Default for TextareaVariant {
    fn default() -> (v: Self)
        ensures
            v == TextareaVariant::Default,
    {
        TextareaVariant::Default
    }
}

/// A range of text between two positions, in either order.
#[derive(Debug, Clone, Copy, PartialEq, Eq, Structural)]
pub struct Selection {
    pub start: usize,
    pub end: usize,
}

impl Selection {
    pub fn new(start: usize, end: usize) -> (s: Self)
        ensures
            s.start == start && s.end == end,
    {
        Selection { start, end }
    }

    /// Nothing is selected when both ends meet.
    pub fn is_empty(&self) -> (b: bool)
        ensures
            b == (self.start == self.end),
    {
        self.start == self.end
    }

    /// The two ends, the smaller first.
    pub fn normalized(&self) -> (r: (usize, usize))
        ensures
            r == if self.start <= self.end {
                (self.start, self.end)
            } else {
                (self.end, self.start)
            },
    {
        if self.start <= self.end {
            (self.start, self.end)
        } else {
            (self.end, self.start)
        }
    }
}

/// `a + b`, at most the largest `usize`.
pub open spec fn sat_usize(a: int, b: int) -> int {
    if a + b > usize::MAX {
        usize::MAX as int
    } else {
        a + b
    }
}

/// The line and column before character `k`: the line breaks before it, and
/// the width of the characters since the last one (saturating).
pub open spec fn line_col(text: Seq<char>, k: int) -> (int, int)
    decreases k,
{
    if k <= 0 {
        (0, 0)
    } else {
        let p = line_col(text, k - 1);
        if text[k - 1] == '\n' {
            (p.0 + 1, 0)
        } else {
            (p.0, sat_usize(p.1, cells_of(text[k - 1])))
        }
    }
}

/// From character `k` on: the first position on line `tl` at column `tc` or
/// further, or the end of line `tl` when it is shorter; the end of the text
/// when neither comes.
pub open spec fn find_offset(text: Seq<char>, tl: int, tc: int, k: int) -> int
    decreases text.len() - k,
{
    if k >= text.len() || k < 0 {
        text.len() as int
    } else {
        let p = line_col(text, k);
        if p.0 == tl && p.1 >= tc {
            k
        } else if text[k] == '\n' && p.0 == tl {
            k
        } else {
            find_offset(text, tl, tc, k + 1)
        }
    }
}

/// The lines of a text: none when empty, else the pieces between line breaks.
pub open spec fn text_lines(text: Seq<char>) -> Seq<Seq<char>> {
    if text.len() == 0 {
        Seq::empty()
    } else {
        split(text, '\n')
    }
}

/// What a key does to a text area.
pub enum AreaStep {
    Ignore,
    Insert(char),
    Newline,
    Backspace,
    Delete,
    Up,
    Down,
    Left,
    Right,
    Home,
    End,
    SelectAll,
    Submit,
}

/// A character typed without Control is inserted; Control+A selects all and
/// other Control characters are ignored; Enter inserts a line break, or
/// submits with Control; Backspace, Delete, the arrows, Home and End do what
/// they say; everything else is ignored.
pub open spec fn area_step(ev: Event) -> AreaStep {
    match ev {
        Event::Key(k) => match k.code {
            KeyCode::Char(c) => if k.modifiers.control {
                if c == 'a' {
                    AreaStep::SelectAll
                } else {
                    AreaStep::Ignore
                }
            } else {
                AreaStep::Insert(c)
            },
            KeyCode::Enter => if k.modifiers.control {
                AreaStep::Submit
            } else {
                AreaStep::Newline
            },
            KeyCode::Backspace => AreaStep::Backspace,
            KeyCode::Delete => AreaStep::Delete,
            KeyCode::Up => AreaStep::Up,
            KeyCode::Down => AreaStep::Down,
            KeyCode::Left => AreaStep::Left,
            KeyCode::Right => AreaStep::Right,
            KeyCode::Home => AreaStep::Home,
            KeyCode::End => AreaStep::End,
            _ => AreaStep::Ignore,
        },
        _ => AreaStep::Ignore,
    }
}

/// The cursor after a move step.
pub open spec fn moved_cursor(text: Seq<char>, cursor: int, step: AreaStep) -> int {
    let p = line_col(text, cursor);
    match step {
        AreaStep::Up => if p.0 > 0 {
            find_offset(text, p.0 - 1, p.1, 0)
        } else {
            cursor
        },
        AreaStep::Down => if p.0 + 1 < text_lines(text).len() {
            find_offset(text, p.0 + 1, p.1, 0)
        } else {
            cursor
        },
        AreaStep::Left => if cursor > 0 {
            cursor - 1
        } else {
            cursor
        },
        AreaStep::Right => if cursor < text.len() {
            cursor + 1
        } else {
            cursor
        },
        AreaStep::Home => find_offset(text, p.0, 0, 0),
        AreaStep::End => if p.0 < text_lines(text).len() {
            find_offset(text, p.0, text_width(text_lines(text)[p.0]) as int, 0)
        } else {
            cursor
        },
        _ => cursor,
    }
}

/// The text and cursor once the selected range `(a, b)` is removed.
pub open spec fn without_range(text: Seq<char>, a: int, b: int) -> Seq<char> {
    text.subrange(0, a) + text.subrange(b, text.len() as int)
}

/// The ends of a selection, the smaller first.
pub open spec fn ordered(s: Selection) -> (int, int) {
    if s.start <= s.end {
        (s.start as int, s.end as int)
    } else {
        (s.end as int, s.start as int)
    }
}

/// The text and cursor once the selection (if any) is removed.
pub open spec fn cleared(text: Seq<char>, cursor: int, sel: Option<Selection>) -> (Seq<char>, int) {
    match sel {
        Some(s) => (without_range(text, ordered(s).0, ordered(s).1), ordered(s).0),
        None => (text, cursor),
    }
}

/// The text, cursor and selection after `step`.
pub open spec fn area_after(text: Seq<char>, cursor: int, sel: Option<Selection>, step: AreaStep) -> (
    Seq<char>,
    int,
    Option<Selection>,
) {
    let (t0, c0) = cleared(text, cursor, sel);
    match step {
        AreaStep::Insert(ch) => (t0.insert(c0, ch), c0 + 1, None),
        AreaStep::Newline => (t0.insert(c0, '\n'), c0 + 1, None),
        AreaStep::Backspace => if sel.is_some() {
            (t0, c0, None)
        } else if cursor > 0 {
            (text.remove(cursor - 1), cursor - 1, None)
        } else {
            (text, cursor, None)
        },
        AreaStep::Delete => if sel.is_some() {
            (t0, c0, None)
        } else if cursor < text.len() {
            (text.remove(cursor), cursor, None)
        } else {
            (text, cursor, None)
        },
        AreaStep::Up | AreaStep::Down | AreaStep::Left | AreaStep::Right | AreaStep::Home | AreaStep::End => (
            text,
            moved_cursor(text, cursor, step),
            None,
        ),
        AreaStep::SelectAll => (text, cursor, if text.len() > 0 {
            Some(Selection { start: 0, end: text.len() as usize })
        } else {
            sel
        }),
        _ => (text, cursor, sel),
    }
}

/// Whether `step` changes the text (and so calls the change callback).
pub open spec fn area_changes(text: Seq<char>, cursor: int, sel: Option<Selection>, step: AreaStep) -> bool {
    match step {
        AreaStep::Insert(_) | AreaStep::Newline => true,
        AreaStep::Backspace => sel.is_some() || cursor > 0,
        AreaStep::Delete => sel.is_some() || cursor < text.len(),
        _ => false,
    }
}

/// `find_offset` gives a position within the text.
proof fn lemma_find_offset_bounds(text: Seq<char>, tl: int, tc: int, k: int)
    requires
        0 <= k <= text.len(),
    ensures
        k <= find_offset(text, tl, tc, k) <= text.len(),
    decreases text.len() - k,
{
    if k < text.len() {
        lemma_find_offset_bounds(text, tl, tc, k + 1);
    }
}

/// The line number never passes the position.
proof fn lemma_line_bound(text: Seq<char>, k: int)
    requires
        0 <= k,
    ensures
        0 <= line_col(text, k).0 <= k,
        0 <= line_col(text, k).1 <= usize::MAX,
    decreases k,
{
    if k > 0 {
        lemma_line_bound(text, k - 1);
    }
}

/// Typing a character and then pressing Backspace, without a selection, gives
/// back the text and the cursor.
pub proof fn law_area_insert_then_backspace(text: Seq<char>, cursor: int, c: char)
    requires
        0 <= cursor <= text.len(),
    ensures
        ({
            let (t1, c1, s1) = area_after(text, cursor, None, AreaStep::Insert(c));
            area_after(t1, c1, s1, AreaStep::Backspace) == (text, cursor, None::<Selection>)
        }),
{
    assert(text.insert(cursor, c).remove(cursor) =~= text);
}

/// Without a selection, Delete removes the character at the cursor: what came
/// before the cursor stays, everything after it moves back by one, and the
/// cursor stays where it was; at the end of the text nothing changes.
pub proof fn law_area_delete_at_cursor(text: Seq<char>, cursor: int)
    requires
        0 <= cursor <= text.len(),
    ensures
        ({
            let (t, c, s) = area_after(text, cursor, None, AreaStep::Delete);
            &&& c == cursor && s.is_none()
            &&& cursor < text.len() ==> {
                &&& t.len() == text.len() - 1
                &&& forall|i: int| 0 <= i < cursor ==> #[trigger] t[i] == text[i]
                &&& forall|i: int| cursor <= i < t.len() ==> #[trigger] t[i] == text[i + 1]
            }
            &&& cursor == text.len() ==> t == text
        }),
{
}

/// Without a selection, Backspace removes the character before the cursor and
/// moves the cursor back onto its place; at the start nothing changes.
pub proof fn law_area_backspace_before_cursor(text: Seq<char>, cursor: int)
    requires
        0 <= cursor <= text.len(),
    ensures
        ({
            let (t, c, s) = area_after(text, cursor, None, AreaStep::Backspace);
            &&& s.is_none()
            &&& cursor > 0 ==> {
                &&& c == cursor - 1
                &&& t.len() == text.len() - 1
                &&& forall|i: int| 0 <= i < cursor - 1 ==> #[trigger] t[i] == text[i]
                &&& forall|i: int| cursor - 1 <= i < t.len() ==> #[trigger] t[i] == text[i + 1]
            }
            &&& cursor == 0 ==> t == text && c == 0
        }),
{
}

/// Without a selection, typing a character (or a new line) puts it at the
/// cursor, keeps what came before, moves the rest on by one, and moves the
/// cursor past it.
pub proof fn law_area_insert_at_cursor(text: Seq<char>, cursor: int, ch: char)
    requires
        0 <= cursor <= text.len(),
    ensures
        ({
            let (t, c, s) = area_after(text, cursor, None, AreaStep::Insert(ch));
            &&& c == cursor + 1 && s.is_none()
            &&& t.len() == text.len() + 1
            &&& t[cursor] == ch
            &&& forall|i: int| 0 <= i < cursor ==> #[trigger] t[i] == text[i]
            &&& forall|i: int| cursor <= i < text.len() ==> #[trigger] t[i + 1] == text[i]
        }),
        ({
            let (t, c, s) = area_after(text, cursor, None, AreaStep::Newline);
            &&& c == cursor + 1 && s.is_none()
            &&& t.len() == text.len() + 1
            &&& t[cursor] == '\n'
            &&& forall|i: int| 0 <= i < cursor ==> #[trigger] t[i] == text[i]
            &&& forall|i: int| cursor <= i < text.len() ==> #[trigger] t[i + 1] == text[i]
        }),
{
    let (t0, c0) = cleared(text, cursor, None);
    assert(t0 == text && c0 == cursor);
}

/// Home from a position on line `l` past the first `k` positions, none of
/// which is on line `l`, lands on that line no later than the position, at
/// its first position.
proof fn lemma_home_scan(text: Seq<char>, cursor: int, k: int)
    requires
        0 <= k <= cursor <= text.len(),
        forall|j: int| 0 <= j < k ==> (#[trigger] line_col(text, j)).0 != line_col(text, cursor).0,
    ensures
        ({
            let h = find_offset(text, line_col(text, cursor).0, 0, k);
            &&& k <= h <= cursor
            &&& line_col(text, h).0 == line_col(text, cursor).0
            &&& forall|j: int| 0 <= j < h ==> (#[trigger] line_col(text, j)).0 != line_col(text, cursor).0
        }),
    decreases cursor - k,
{
    let l = line_col(text, cursor).0;
    if line_col(text, k).0 == l {
        lemma_col_nonneg(text, k);
    } else {
        assert(k < cursor);
        lemma_home_scan(text, cursor, k + 1);
    }
}

/// A column is never negative.
proof fn lemma_col_nonneg(text: Seq<char>, k: int)
    ensures
        line_col(text, k).1 >= 0,
    decreases k,
{
    if k > 0 {
        lemma_col_nonneg(text, k - 1);
    }
}

/// Scanning for line `tl` from `k`, with a line break on that line at `j`
/// ahead, stops on line `tl` no later than `j`, at column `tc` or further or
/// at the line's break.
proof fn lemma_scan_to_line(text: Seq<char>, tl: int, tc: int, k: int, j: int)
    requires
        0 <= k <= j < text.len(),
        text[j] == '\n',
        line_col(text, j).0 == tl,
    ensures
        ({
            let r = find_offset(text, tl, tc, k);
            &&& k <= r <= j
            &&& line_col(text, r).0 == tl
            &&& (line_col(text, r).1 >= tc || text[r] == '\n')
        }),
    decreases j - k,
{
    let p = line_col(text, k);
    if !(p.0 == tl && p.1 >= tc) && !(text[k] == '\n' && p.0 == tl) {
        lemma_scan_to_line(text, tl, tc, k + 1, j);
    }
}

/// Up from any line but the first moves the cursor onto the line above, at
/// the cursor's column or further, or at the end of that line when it is
/// shorter; on the first line it stays.
pub proof fn law_area_up_moves_one_line(text: Seq<char>, cursor: int)
    requires
        0 <= cursor <= text.len(),
    ensures
        ({
            let p = line_col(text, cursor);
            let u = moved_cursor(text, cursor, AreaStep::Up);
            &&& p.0 == 0 ==> u == cursor
            &&& p.0 > 0 ==> 0 <= u < cursor && line_col(text, u).0 == p.0 - 1 && (line_col(text, u).1 >= p.1 || text[u] == '\n')
        }),
{
    let p = line_col(text, cursor);
    if p.0 > 0 {
        lemma_home_scan(text, cursor, 0);
        let h = find_offset(text, p.0, 0, 0);
        assert(h > 0) by {
            assert(line_col(text, 0).0 == 0);
        }
        assert(line_col(text, h - 1).0 != p.0);
        assert(text[h - 1] == '\n');
        assert(line_col(text, h - 1).0 == p.0 - 1);
        lemma_scan_to_line(text, p.0 - 1, p.1, 0, h - 1);
    }
}

/// Left and Right move the cursor one character back and on, staying inside
/// the text; Home moves it to the start of its own line: on the same line, no
/// later than it, at column zero, with the position before it (if any) ending
/// the previous line.
pub proof fn law_area_left_right_home(text: Seq<char>, cursor: int)
    requires
        0 <= cursor <= text.len(),
    ensures
        moved_cursor(text, cursor, AreaStep::Left) == if cursor > 0 { cursor - 1 } else { 0 },
        moved_cursor(text, cursor, AreaStep::Right) == if cursor < text.len() { cursor + 1 } else { cursor },
        ({
            let h = moved_cursor(text, cursor, AreaStep::Home);
            &&& 0 <= h <= cursor
            &&& line_col(text, h).0 == line_col(text, cursor).0
            &&& line_col(text, h).1 == 0
            &&& h > 0 ==> text[h - 1] == '\n'
        }),
{
    lemma_home_scan(text, cursor, 0);
    let h = moved_cursor(text, cursor, AreaStep::Home);
    if h > 0 {
        assert(line_col(text, h - 1).0 != line_col(text, cursor).0);
    }
}

/// Selecting everything and pressing Delete empties the text.
pub proof fn law_select_all_then_delete(text: Seq<char>, cursor: int, sel: Option<Selection>)
    requires
        0 < text.len() <= usize::MAX,
        0 <= cursor <= text.len(),
    ensures
        ({
            let (t1, c1, s1) = area_after(text, cursor, sel, AreaStep::SelectAll);
            let (t2, c2, s2) = area_after(t1, c1, s1, AreaStep::Delete);
            t2.len() == 0 && c2 == 0 && s2.is_none()
        }),
{
    let (t1, c1, s1) = area_after(text, cursor, sel, AreaStep::SelectAll);
    assert(without_range(t1, 0, text.len() as int) =~= Seq::<char>::empty());
}

/// Every step keeps the cursor and the selection within the text.
pub proof fn law_area_cursor_in_text(text: Seq<char>, cursor: int, sel: Option<Selection>, step: AreaStep)
    requires
        0 <= cursor <= text.len(),
        text.len() <= usize::MAX,
        selection_within(sel, text.len() as int),
    ensures
        ({
            let (t, c, s) = area_after(text, cursor, sel, step);
            0 <= c <= t.len() && selection_within(s, t.len() as int)
        }),
{
    let p = line_col(text, cursor);
    lemma_find_offset_bounds(text, p.0 - 1, p.1, 0);
    lemma_find_offset_bounds(text, p.0 + 1, p.1, 0);
    lemma_find_offset_bounds(text, p.0, 0, 0);
    if p.0 < text_lines(text).len() {
        lemma_find_offset_bounds(text, p.0, text_width(text_lines(text)[p.0]) as int, 0);
    }
}


/// A multi-line text area reporting changes and submissions as `M`.
#[verifier::reject_recursive_types(M)]
pub struct Textarea<M = ()> {
    value: String,
    placeholder: Option<String>,
    cursor_position: usize,
    selection: Option<Selection>,
    scroll_offset: usize,
    variant: TextareaVariant,
    disabled: bool,
    line_numbers: bool,
    line_wrap: bool,
    focused: bool,
    custom_style: Option<Style>,
    custom_focus_style: Option<Style>,
    on_change: Option<Box<dyn Handler<(String,), M>>>,
    on_submit: Option<Box<dyn Handler<(String,), M>>>,
}

/// The settings of a text area: everything but its text, cursor, selection,
/// scrolling and focus.
pub struct AreaSetup {
    pub placeholder: Option<Seq<char>>,
    pub variant: TextareaVariant,
    pub disabled: bool,
    pub line_numbers: bool,
    pub line_wrap: bool,
    pub custom_style: Option<Style>,
    pub custom_focus_style: Option<Style>,
}

/// The selection lies within a text of `n` characters.
pub open spec fn selection_within(sel: Option<Selection>, n: int) -> bool {
    sel matches Some(s) ==> s.start <= n && s.end <= n
}

impl<M> Textarea<M> {
    #[verifier::type_invariant]
    spec fn inv(&self) -> bool {
        &&& handler_ready(self.on_change)
        &&& handler_ready(self.on_submit)
        &&& self.cursor_position <= self.value@.len()
        &&& selection_within(self.selection, self.value@.len() as int)
    }

    pub closed spec fn text(&self) -> Seq<char> {
        self.value@
    }

    pub closed spec fn cursor(&self) -> int {
        self.cursor_position as int
    }

    pub closed spec fn selected(&self) -> Option<Selection> {
        self.selection
    }

    pub closed spec fn offset(&self) -> usize {
        self.scroll_offset
    }

    pub closed spec fn has_focus(&self) -> bool {
        self.focused
    }

    pub closed spec fn setup(&self) -> AreaSetup {
        AreaSetup {
            placeholder: match self.placeholder {
                Some(p) => Some(p@),
                None => None,
            },
            variant: self.variant,
            disabled: self.disabled,
            line_numbers: self.line_numbers,
            line_wrap: self.line_wrap,
            custom_style: self.custom_style,
            custom_focus_style: self.custom_focus_style,
        }
    }

    pub closed spec fn change_handler(&self) -> Option<Box<dyn Handler<(String,), M>>> {
        self.on_change
    }

    pub closed spec fn submit_handler(&self) -> Option<Box<dyn Handler<(String,), M>>> {
        self.on_submit
    }

    /// Settings, callbacks and scrolling as in `other`.
    pub open spec fn same_setup(&self, other: &Self) -> bool {
        &&& self.setup() == other.setup()
        &&& self.change_handler() == other.change_handler()
        &&& self.submit_handler() == other.submit_handler()
        &&& self.offset() == other.offset()
    }

    /// Text, cursor, selection and focus as in `other`.
    pub open spec fn same_content(&self, other: &Self) -> bool {
        &&& self.text() == other.text()
        &&& self.cursor() == other.cursor()
        &&& self.selected() == other.selected()
        &&& self.has_focus() == other.has_focus()
    }

    /// An empty, enabled area that wraps lines and shows no line numbers.
    pub fn new() -> (t: Self)
        ensures
            t.text().len() == 0 && t.cursor() == 0 && t.selected().is_none(),
            t.offset() == 0 && !t.has_focus(),
            t.setup() == (AreaSetup {
                placeholder: None,
                variant: TextareaVariant::Default,
                disabled: false,
                line_numbers: false,
                line_wrap: true,
                custom_style: None,
                custom_focus_style: None,
            }),
            t.change_handler().is_none() && t.submit_handler().is_none(),
    {
        Textarea {
            value: String::new(),
            placeholder: None,
            cursor_position: 0,
            selection: None,
            scroll_offset: 0,
            variant: TextareaVariant::Default,
            disabled: false,
            line_numbers: false,
            line_wrap: true,
            focused: false,
            custom_style: None,
            custom_focus_style: None,
            on_change: None,
            on_submit: None,
        }
    }

    pub fn variant(self, variant: TextareaVariant) -> (t: Self)
        ensures
            t.setup() == (AreaSetup { variant, ..self.setup() }),
            t.same_content(&self) && t.offset() == self.offset(),
            t.change_handler() == self.change_handler() && t.submit_handler() == self.submit_handler(),
    {
        proof { use_type_invariant(&self); }
        Textarea { variant, ..self }
    }

    /// Sets the text and puts the cursor at its end; the selection is dropped.
    pub fn value(self, value: &str) -> (t: Self)
        ensures
            t.text() == value@ && t.cursor() == value@.len() && t.selected().is_none(),
            t.same_setup(&self) && t.has_focus() == self.has_focus(),
    {
        proof { use_type_invariant(&self); }
        let v = owned(value);
        let n = chars_of(value).len();
        Textarea { value: v, cursor_position: n, selection: None, ..self }
    }

    pub fn placeholder(self, placeholder: &str) -> (t: Self)
        ensures
            t.setup() == (AreaSetup { placeholder: Some(placeholder@), ..self.setup() }),
            t.same_content(&self) && t.offset() == self.offset(),
            t.change_handler() == self.change_handler() && t.submit_handler() == self.submit_handler(),
    {
        proof { use_type_invariant(&self); }
        Textarea { placeholder: Some(owned(placeholder)), ..self }
    }

    pub fn disabled(self, disabled: bool) -> (t: Self)
        ensures
            t.setup() == (AreaSetup { disabled, ..self.setup() }),
            t.same_content(&self) && t.offset() == self.offset(),
            t.change_handler() == self.change_handler() && t.submit_handler() == self.submit_handler(),
    {
        proof { use_type_invariant(&self); }
        Textarea { disabled, ..self }
    }

    pub fn line_numbers(self, enabled: bool) -> (t: Self)
        ensures
            t.setup() == (AreaSetup { line_numbers: enabled, ..self.setup() }),
            t.same_content(&self) && t.offset() == self.offset(),
            t.change_handler() == self.change_handler() && t.submit_handler() == self.submit_handler(),
    {
        proof { use_type_invariant(&self); }
        Textarea { line_numbers: enabled, ..self }
    }

    pub fn line_wrap(self, enabled: bool) -> (t: Self)
        ensures
            t.setup() == (AreaSetup { line_wrap: enabled, ..self.setup() }),
            t.same_content(&self) && t.offset() == self.offset(),
            t.change_handler() == self.change_handler() && t.submit_handler() == self.submit_handler(),
    {
        proof { use_type_invariant(&self); }
        Textarea { line_wrap: enabled, ..self }
    }

    pub fn style(self, style: Style) -> (t: Self)
        ensures
            t.setup() == (AreaSetup { custom_style: Some(style), ..self.setup() }),
            t.same_content(&self) && t.offset() == self.offset(),
            t.change_handler() == self.change_handler() && t.submit_handler() == self.submit_handler(),
    {
        proof { use_type_invariant(&self); }
        Textarea { custom_style: Some(style), ..self }
    }

    pub fn focus_style(self, style: Style) -> (t: Self)
        ensures
            t.setup() == (AreaSetup { custom_focus_style: Some(style), ..self.setup() }),
            t.same_content(&self) && t.offset() == self.offset(),
            t.change_handler() == self.change_handler() && t.submit_handler() == self.submit_handler(),
    {
        proof { use_type_invariant(&self); }
        Textarea { custom_focus_style: Some(style), ..self }
    }

    /// Sets the callback called with the text after each change.
    pub fn on_change<F: Fn(String) -> M + 'static>(self, handler: F) -> (t: Self)
        requires
            forall|a: (String,)| call_requires(handler, a),
        ensures
            t.change_handler().is_some(),
            forall|a: (String,), m: M| t.change_handler().unwrap().gives(a, m) == call_ensures(handler, a, m),
            t.setup() == self.setup() && t.submit_handler() == self.submit_handler(),
            t.same_content(&self) && t.offset() == self.offset(),
    {
        proof { use_type_invariant(&self); }
        let h: Box<dyn Handler<(String,), M>> = Box::new(handler);
        Textarea {
            value: self.value,
            placeholder: self.placeholder,
            cursor_position: self.cursor_position,
            selection: self.selection,
            scroll_offset: self.scroll_offset,
            variant: self.variant,
            disabled: self.disabled,
            line_numbers: self.line_numbers,
            line_wrap: self.line_wrap,
            focused: self.focused,
            custom_style: self.custom_style,
            custom_focus_style: self.custom_focus_style,
            on_change: Some(h),
            on_submit: self.on_submit,
        }
    }

    /// Sets the callback called with the text on Control+Enter.
    pub fn on_submit<F: Fn(String) -> M + 'static>(self, handler: F) -> (t: Self)
        requires
            forall|a: (String,)| call_requires(handler, a),
        ensures
            t.submit_handler().is_some(),
            forall|a: (String,), m: M| t.submit_handler().unwrap().gives(a, m) == call_ensures(handler, a, m),
            t.setup() == self.setup() && t.change_handler() == self.change_handler(),
            t.same_content(&self) && t.offset() == self.offset(),
    {
        proof { use_type_invariant(&self); }
        let h: Box<dyn Handler<(String,), M>> = Box::new(handler);
        Textarea {
            value: self.value,
            placeholder: self.placeholder,
            cursor_position: self.cursor_position,
            selection: self.selection,
            scroll_offset: self.scroll_offset,
            variant: self.variant,
            disabled: self.disabled,
            line_numbers: self.line_numbers,
            line_wrap: self.line_wrap,
            focused: self.focused,
            custom_style: self.custom_style,
            custom_focus_style: self.custom_focus_style,
            on_change: self.on_change,
            on_submit: Some(h),
        }
    }

    /// The text.
    pub fn get_value(&self) -> (s: &str)
        ensures
            s@ == self.text(),
    {
        self.value.as_str()
    }

    /// The cursor, as a character index; it lies within the text.
    pub fn cursor_position(&self) -> (c: usize)
        ensures
            c == self.cursor(),
            c <= self.text().len(),
    {
        proof { use_type_invariant(self); }
        self.cursor_position
    }

    /// The style under `theme`: the theme's interactive style for the state,
    /// under the custom focus style while focused, else under the custom style.
    pub fn get_style(&self, theme: &Theme) -> (s: Style)
        ensures
            s == area_style(self.setup(), self.has_focus(), *theme),
            ({
                let base = if self.setup().disabled {
                    theme.styles.interactive_disabled
                } else if self.has_focus() {
                    theme.styles.interactive_focused
                } else {
                    theme.styles.interactive
                };
                s == if self.has_focus() && self.setup().custom_focus_style.is_some() {
                    merged(self.setup().custom_focus_style.unwrap(), base)
                } else {
                    match self.setup().custom_style {
                        Some(c) => merged(c, base),
                        None => base,
                    }
                }
            }),
    {
        let base = if self.disabled {
            theme.styles.interactive_disabled
        } else if self.focused {
            theme.styles.interactive_focused
        } else {
            theme.styles.interactive
        };
        if self.focused {
            if let Some(f) = self.custom_focus_style {
                return f.merge(base);
            }
        }
        match self.custom_style {
            Some(c) => c.merge(base),
            None => base,
        }
    }

    /// The lines of the text (see `text_lines`).
    pub fn lines(&self) -> (v: Vec<String>)
        ensures
            v@.len() == text_lines(self.text()).len(),
            forall|i: int| 0 <= i < v@.len() ==> (#[trigger] v@[i])@ == text_lines(self.text())[i],
    {
        let cs = chars_of(self.value.as_str());
        let mut v: Vec<String> = Vec::new();
        if cs.len() == 0 {
            return v;
        }
        let bounds = split_bounds(cs.as_slice(), '\n');
        let n = bounds.len();
        let mut i: usize = 0;
        while i < n
            invariant
                n == bounds@.len() == split(cs@, '\n').len(),
                cs@ == self.text(),
                cs@.len() > 0,
                i <= n,
                v@.len() == i,
                forall|k: int| 0 <= k < i ==> (#[trigger] v@[k])@ == split(cs@, '\n')[k],
                forall|j: int|
                    0 <= j < bounds@.len() ==> {
                        &&& (#[trigger] bounds@[j]).0 <= bounds@[j].1 <= cs@.len()
                        &&& cs@.subrange(bounds@[j].0 as int, bounds@[j].1 as int) == split(cs@, '\n')[j]
                    },
            decreases n - i,
        {
            let (a, b) = bounds[i];
            v.push(string_from_range(cs.as_slice(), a, b));
            i = i + 1;
        }
        v
    }

    /// The line and column of the cursor (see `line_col`).
    pub fn cursor_line_col(&self) -> (r: (usize, usize))
        ensures
            r.0 as int == line_col(self.text(), self.cursor()).0,
            r.1 as int == line_col(self.text(), self.cursor()).1,
    {
        proof { use_type_invariant(self); }
        let cs = chars_of(self.value.as_str());
        let mut line: usize = 0;
        let mut col: usize = 0;
        let mut k: usize = 0;
        while k < self.cursor_position
            invariant
                cs@ == self.text(),
                self.cursor_position <= cs@.len(),
                k <= self.cursor_position,
                line as int == line_col(cs@, k as int).0,
                col as int == line_col(cs@, k as int).1,
            decreases self.cursor_position - k,
        {
            proof {
                lemma_line_bound(cs@, k as int);
            }
            if cs[k] == '\n' {
                line = line + 1;
                col = 0;
            } else {
                let w: usize = match char_width(cs[k]) {
                    Some(n) => n,
                    None => 0,
                };
                col = col.saturating_add(w);
            }
            k = k + 1;
        }
        (line, col)
    }

    /// The position of line `target_line` at column `target_col` (see
    /// `find_offset`).
    pub fn line_col_to_offset(&self, target_line: usize, target_col: usize) -> (r: usize)
        ensures
            r as int == find_offset(self.text(), target_line as int, target_col as int, 0),
    {
        let cs = chars_of(self.value.as_str());
        let mut line: usize = 0;
        let mut col: usize = 0;
        let mut k: usize = 0;
        while k < cs.len()
            invariant
                cs@ == self.text(),
                k <= cs@.len(),
                line as int == line_col(cs@, k as int).0,
                col as int == line_col(cs@, k as int).1,
                find_offset(cs@, target_line as int, target_col as int, k as int) == find_offset(
                    cs@,
                    target_line as int,
                    target_col as int,
                    0,
                ),
            decreases cs@.len() - k,
        {
            proof {
                lemma_line_bound(cs@, k as int);
            }
            if line == target_line && col >= target_col {
                return k;
            }
            if cs[k] == '\n' {
                if line == target_line {
                    return k;
                }
                line = line + 1;
                col = 0;
            } else {
                let w: usize = match char_width(cs[k]) {
                    Some(n) => n,
                    None => 0,
                };
                col = col.saturating_add(w);
            }
            k = k + 1;
        }
        cs.len()
    }

    /// Removes the selected range, puts the cursor at its start and gives the
    /// change message.
    fn delete_selection(&mut self, selection: Selection) -> (out: Vec<M>)
        requires
            selection_within(Some(selection), old(self).text().len() as int),
            old(self).selected().is_none(),
        ensures
            ({
                let (a, b) = if selection.start <= selection.end {
                    (selection.start, selection.end)
                } else {
                    (selection.end, selection.start)
                };
                final(self).text() == without_range(old(self).text(), a as int, b as int) && final(self).cursor() == a
            }),
            final(self).selected() == old(self).selected(),
            final(self).same_setup(old(self)),
            final(self).has_focus() == old(self).has_focus(),
            text_fired(old(self).change_handler(), final(self).text(), out@),
    {
        proof { use_type_invariant(&*self); }
        let (start, end) = selection.normalized();
        let v = remove_chars(self.value.as_str(), start, end);
        self.cursor_position = 0;
        self.value = v;
        self.cursor_position = start;
        fire_text(&self.on_change, self.value.as_str())
    }
    /// Moves the cursor as a move step says and drops the selection.
    fn move_cursor(&mut self, step: AreaStep)
        requires
            step is Up || step is Down || step is Left || step is Right || step is Home || step is End,
        ensures
            final(self).text() == old(self).text(),
            final(self).cursor() == moved_cursor(old(self).text(), old(self).cursor(), step),
            final(self).selected().is_none(),
            final(self).same_setup(old(self)),
            final(self).has_focus() == old(self).has_focus(),
    {
        proof { use_type_invariant(&*self); }
        self.selection = None;
        let (line, col) = self.cursor_line_col();
        let cur = self.cursor_position;
        let n = chars_of(self.value.as_str()).len();
        proof {
            lemma_line_bound(self.value@, cur as int);
            lemma_find_offset_bounds(self.value@, 0, 0, 0);
        }
        let target: usize = match step {
            AreaStep::Up => if line > 0 {
                self.line_col_to_offset(line - 1, col)
            } else {
                cur
            },
            AreaStep::Down => {
                let count = self.lines().len();
                if count > 0 && line < count - 1 {
                    self.line_col_to_offset(line + 1, col)
                } else {
                    cur
                }
            },
            AreaStep::Left => if cur > 0 {
                cur - 1
            } else {
                cur
            },
            AreaStep::Right => if cur < n {
                cur + 1
            } else {
                cur
            },
            AreaStep::Home => self.line_col_to_offset(line, 0),
            _ => {
                let ls = self.lines();
                if line < ls.len() {
                    let w = str_width(ls[line].as_str());
                    self.line_col_to_offset(line, w)
                } else {
                    cur
                }
            },
        };
        proof {
            let t = self.value@;
            let p = line_col(t, cur as int);
            assert forall|tl: int, tc: int| #![trigger find_offset(t, tl, tc, 0)] find_offset(t, tl, tc, 0) <= t.len() by {
                lemma_find_offset_bounds(t, tl, tc, 0);
            }
        }
        self.cursor_position = target;
    }

    /// Applies an editing step, giving the change message when the text changed.
    fn edit(&mut self, step: AreaStep) -> (out: Vec<M>)
        requires
            step is Insert || step is Newline || step is Backspace || step is Delete,
        ensures
            ({
                let (t, c, sel) = area_after(old(self).text(), old(self).cursor(), old(self).selected(), step);
                final(self).text() == t && final(self).cursor() == c && final(self).selected() == sel
            }),
            final(self).same_setup(old(self)),
            final(self).has_focus() == old(self).has_focus(),
            area_changes(old(self).text(), old(self).cursor(), old(self).selected(), step) ==> text_fired(
                old(self).change_handler(),
                final(self).text(),
                out@,
            ),
            !area_changes(old(self).text(), old(self).cursor(), old(self).selected(), step) ==> out@.len() == 0,
    {
        proof { use_type_invariant(&*self); }
        let taken = self.selection;
        self.selection = None;
        let mut fired: Vec<M> = Vec::new();
        if let Some(sel) = taken {
            fired = self.delete_selection(sel);
            match step {
                AreaStep::Backspace | AreaStep::Delete => {
                    return fired;
                },
                _ => {},
            }
        }
        let cur = self.cursor_position;
        let n = chars_of(self.value.as_str()).len();
        match step {
            AreaStep::Insert(c) => {
                let v = insert_char_at(self.value.as_str(), cur, c);
                let n2 = chars_of(v.as_str()).len();
                self.value = v;
                proof {
                    assert(n2 == n + 1);
                }
                self.cursor_position = cur + 1;
                fire_text(&self.on_change, self.value.as_str())
            },
            AreaStep::Newline => {
                let v = insert_char_at(self.value.as_str(), cur, '\n');
                let n2 = chars_of(v.as_str()).len();
                self.value = v;
                proof {
                    assert(n2 == n + 1);
                }
                self.cursor_position = cur + 1;
                fire_text(&self.on_change, self.value.as_str())
            },
            AreaStep::Backspace => {
                if cur > 0 {
                    let v = remove_chars(self.value.as_str(), cur - 1, cur);
                    proof {
                        assert(v@ =~= old(self).value@.remove(cur - 1));
                    }
                    self.cursor_position = cur - 1;
                    self.value = v;
                    fire_text(&self.on_change, self.value.as_str())
                } else {
                    Vec::new()
                }
            },
            _ => {
                if cur < n {
                    let v = remove_chars(self.value.as_str(), cur, cur + 1);
                    proof {
                        assert(v@ =~= old(self).value@.remove(cur as int));
                    }
                    self.value = v;
                    fire_text(&self.on_change, self.value.as_str())
                } else {
                    Vec::new()
                }
            },
        }
    }
}

impl<M> Widget<M> for Textarea<M> {
    open spec fn can_focus(&self) -> bool {
        !self.setup().disabled
    }

    open spec fn focus_flag(&self) -> bool {
        self.has_focus()
    }

    open spec fn keeps_focus(&self) -> bool {
        true
    }

    /// A disabled area, and an event that is no step of the area.
    open spec fn passes_over(&self, event: Event) -> bool {
        self.setup().disabled || area_step(event) is Ignore
    }

    /// A disabled area ignores everything; otherwise each step of `area_step`
    /// is applied and consumed (see `area_after`), the change callback called
    /// when the text changed and the submit callback on Control+Enter.
    fn handle_event(&mut self, event: &Event) -> (r: EventResult<M>)
        ensures
            final(self).same_setup(old(self)),
            final(self).has_focus() == old(self).has_focus(),
            (old(self).setup().disabled || area_step(*event) is Ignore) ==> r is Ignored && final(self).same_content(old(self)),
            !(old(self).setup().disabled || area_step(*event) is Ignore) ==> ({
                let step = area_step(*event);
                let (t, c, sel) = area_after(old(self).text(), old(self).cursor(), old(self).selected(), step);
                &&& final(self).text() == t
                &&& final(self).cursor() == c
                &&& final(self).selected() == sel
                &&& r matches EventResult::Consumed(v) && if step is Submit {
                    text_fired(old(self).submit_handler(), old(self).text(), v@)
                } else if area_changes(old(self).text(), old(self).cursor(), old(self).selected(), step) {
                    text_fired(old(self).change_handler(), t, v@)
                } else {
                    v@.len() == 0
                }
            }),
    {
        proof { use_type_invariant(&*self); }
        if self.disabled {
            return EventResult::Ignored;
        }
        let step = match event {
            Event::Key(k) => match k.code {
                KeyCode::Char(c) => if k.modifiers.control {
                    if c == 'a' {
                        AreaStep::SelectAll
                    } else {
                        AreaStep::Ignore
                    }
                } else {
                    AreaStep::Insert(c)
                },
                KeyCode::Enter => if k.modifiers.control {
                    AreaStep::Submit
                } else {
                    AreaStep::Newline
                },
                KeyCode::Backspace => AreaStep::Backspace,
                KeyCode::Delete => AreaStep::Delete,
                KeyCode::Up => AreaStep::Up,
                KeyCode::Down => AreaStep::Down,
                KeyCode::Left => AreaStep::Left,
                KeyCode::Right => AreaStep::Right,
                KeyCode::Home => AreaStep::Home,
                KeyCode::End => AreaStep::End,
                _ => AreaStep::Ignore,
            },
            _ => AreaStep::Ignore,
        };
        match step {
            AreaStep::Ignore => EventResult::Ignored,
            AreaStep::Submit => EventResult::Consumed(fire_text(&self.on_submit, self.value.as_str())),
            AreaStep::SelectAll => {
                let n = chars_of(self.value.as_str()).len();
                if n > 0 {
                    self.selection = Some(Selection::new(0, n));
                }
                EventResult::Consumed(Vec::new())
            },
            AreaStep::Insert(_) | AreaStep::Newline | AreaStep::Backspace | AreaStep::Delete => EventResult::Consumed(
                self.edit(step),
            ),
            _ => {
                self.move_cursor(step);
                EventResult::Consumed(Vec::new())
            },
        }
    }

    /// At least 20 columns by 5 lines, growing both ways.
    fn constraints(&self) -> (c: Constraints)
        ensures
            c@ == (ConstraintsView { min_width: 20, max_width: None, min_height: 5, max_height: None, flex: None }),
    {
        Constraints { min_width: 20, max_width: None, min_height: 5, max_height: None, flex: None }
    }

    fn focusable(&self) -> (b: bool)
        ensures
            b == !self.setup().disabled,
    {
        !self.disabled
    }

    fn is_focused(&self) -> (b: bool)
        ensures
            b == self.has_focus(),
    {
        self.focused
    }

    /// Sets the focus flag; losing focus drops the selection.
    fn set_focused(&mut self, focused: bool)
        ensures
            final(self).has_focus() == focused,
            final(self).same_setup(old(self)),
            final(self).text() == old(self).text() && final(self).cursor() == old(self).cursor(),
            final(self).selected() == if focused {
                old(self).selected()
            } else {
                None
            },
    {
        proof { use_type_invariant(&*self); }
        self.focused = focused;
        if !focused {
            self.selection = None;
        }
    }
}

impl<M> Default for Textarea<M> {
    fn default() -> (t: Self)
        ensures
            t.text().len() == 0 && t.cursor() == 0 && t.selected().is_none(),
            t.change_handler().is_none() && t.submit_handler().is_none(),
    {
        Textarea::new()
    }
}

/// An empty text area (see `Textarea::new`).
pub fn textarea<M>() -> (t: Textarea<M>)
    ensures
        t.text().len() == 0 && t.cursor() == 0 && t.selected().is_none() && !t.has_focus(),
        t.setup().variant == TextareaVariant::Default && !t.setup().disabled,
        t.change_handler().is_none() && t.submit_handler().is_none(),
{
    Textarea::new()
}

/// The style of a text area with `setup` under `theme` (see `get_style`).
pub open spec fn area_style(setup: AreaSetup, focused: bool, theme: Theme) -> Style {
    let base = if setup.disabled {
        theme.styles.interactive_disabled
    } else if focused {
        theme.styles.interactive_focused
    } else {
        theme.styles.interactive
    };
    if focused && setup.custom_focus_style.is_some() {
        merged(setup.custom_focus_style.unwrap(), base)
    } else {
        match setup.custom_style {
            Some(c) => merged(c, base),
            None => base,
        }
    }
}

/// The characters of `cs` that fit in `room` columns, `used` taken already,
/// up to the first that does not.
pub open spec fn fit_prefix(cs: Seq<char>, room: int, used: int) -> Seq<char>
    decreases cs.len(),
{
    if cs.len() == 0 || used + cells_of(cs[0]) > room {
        Seq::empty()
    } else {
        seq![cs[0]] + fit_prefix(cs.drop_first(), room, used + cells_of(cs[0]))
    }
}

/// The character starting at column `col` of `cs` (`cur` columns before it),
/// or a space when no character starts there.
pub open spec fn char_at_column(cs: Seq<char>, col: int, cur: int) -> char
    decreases cs.len(),
{
    if cs.len() == 0 {
        ' '
    } else if cur == col {
        cs[0]
    } else {
        char_at_column(cs.drop_first(), col, cur + cells_of(cs[0]))
    }
}

proof fn lemma_char_at_column_past(cs: Seq<char>, col: int, cur: int)
    requires
        cur > col,
    ensures
        char_at_column(cs, col, cur) == ' ',
    decreases cs.len(),
{
    if cs.len() > 0 {
        lemma_char_at_column_past(cs.drop_first(), col, cur + cells_of(cs[0]));
    }
}

/// The line number label of a line numbered `n` in a gutter `w` wide: the
/// number right-aligned in `w - 1` columns, then a space.
pub open spec fn area_number(n: nat, w: int) -> Seq<char> {
    let d = decimal_text(n);
    let pad = if d.len() < w - 1 {
        (w - 1 - d.len()) as nat
    } else {
        0
    };
    spaces(pad) + d + seq![' ']
}

/// Where the text of a `width` by `height` area goes: its first line, its
/// first column, and the columns and lines it has (a full border takes two
/// columns each side and a line top and bottom; a bottom border one column
/// each side and the last line).
pub open spec fn area_geometry(v: TextareaVariant, width: u16, height: u16) -> (int, int, int, int) {
    match v {
        TextareaVariant::Borderless => (0, 1, width - 2, height - 1),
        TextareaVariant::Default => (1, 2, width - 4, height - 2),
    }
}

/// The gutter width: the digits of the line count (at least one) and a space
/// when line numbers are shown, else none.
pub open spec fn area_gutter(line_numbers: bool, text: Seq<char>) -> int {
    if line_numbers {
        let n = text_lines(text).len();
        (decimal_text(if n > 0 { n } else { 1 }).len() + 1) as int
    } else {
        0
    }
}

/// A drawn line of a text area.
pub struct AreaRow {
    /// The screen line.
    pub y: u16,
    /// The line number label, in the gutter.
    pub number: Option<String>,
    /// The text of the line, cut to the content width when lines wrap.
    pub text: String,
}

/// The cursor cell of a text area: where, which character, in which style.
#[derive(Debug, Clone, Copy)]
pub struct AreaCursor {
    pub x: u16,
    pub y: u16,
    pub ch: char,
    pub style: Style,
}

/// What a text area draws in an area.
pub struct TextareaPlan {
    /// Only the bottom border is drawn (else a full border).
    pub bottom_only: bool,
    pub border_style: Style,
    /// The style of the text.
    pub text_style: Style,
    /// Where the gutter starts, where the text starts, and the first line.
    pub number_x: u16,
    pub text_x: u16,
    pub text_y: u16,
    /// The columns the text has.
    pub content_width: usize,
    /// There is room for text at all.
    pub has_room: bool,
    /// The placeholder and its style, when the area is empty and unfocused.
    pub placeholder: Option<(String, Style)>,
    /// The visible lines.
    pub rows: Vec<AreaRow>,
    /// The style of the line numbers.
    pub number_style: Style,
    /// The cursor cell, when focused and within the content width.
    pub cursor: Option<AreaCursor>,
}

/// Ten to the `k`.
pub open spec fn ten_to(k: nat) -> nat
    decreases k,
{
    if k == 0 {
        1
    } else {
        10 * ten_to((k - 1) as nat)
    }
}

proof fn lemma_decimal_len(n: nat, k: nat)
    requires
        k >= 1,
        n < ten_to(k),
    ensures
        decimal_text(n).len() <= k,
    decreases n,
{
    if n >= 10 {
        assert(k >= 2) by {
            if k == 1 {
                assert(ten_to(1) == 10 * ten_to(0));
            }
        }
        let t = ten_to((k - 1) as nat);
        assert(ten_to(k) == 10 * t);
        assert(n / 10 < t) by (nonlinear_arith)
            requires
                n < 10 * t,
        ;
        lemma_decimal_len(n / 10, (k - 1) as nat);
    }
}

/// A 64-bit number has at most twenty digits.
proof fn lemma_decimal_short(n: u64)
    ensures
        decimal_text(n as nat).len() <= 20,
{
    reveal_with_fuel(ten_to, 21);
    assert(ten_to(20) == 100000000000000000000);
    lemma_decimal_len(n as nat, 20);
}

/// The number of visible lines, from `start` on, of `n` lines in `h` lines.
pub open spec fn visible_count(start: int, h: int, n: int) -> int {
    if start >= n {
        0
    } else if start + h < n {
        h
    } else {
        n - start
    }
}

/// A line number label of `n` in a gutter `w` wide (see `area_number`).
fn number_label(n: usize, w: usize) -> (s: String)
    requires
        n < usize::MAX,
        w >= 1,
    ensures
        s@ == area_number((n + 1) as nat, w as int),
{
    let mut d = String::new();
    push_decimal(&mut d, (n + 1) as u64);
    let dc = chars_of(d.as_str());
    let mut s = String::new();
    let mut k: usize = 0;
    let pad: usize = if dc.len() < w - 1 {
        w - 1 - dc.len()
    } else {
        0
    };
    while k < pad
        invariant
            k <= pad,
            s@ == spaces(k as nat),
        decreases pad - k,
    {
        push_char(&mut s, ' ');
        k = k + 1;
        proof {
            assert(s@ =~= spaces(k as nat));
        }
    }
    push_str(&mut s, d.as_str());
    push_char(&mut s, ' ');
    s
}

/// The characters of `line` that fit in `room` columns (see `fit_prefix`).
fn fit_line(line: &String, room: usize) -> (r: String)
    requires
        room <= 0xFFFF,
    ensures
        r@ == fit_prefix(line@, room as int, 0),
{
    let cs = chars_of(line.as_str());
    let mut out = String::new();
    let mut used: usize = 0;
    let mut i: usize = 0;
    proof {
        assert(cs@.skip(0) =~= cs@);
    }
    while i < cs.len()
        invariant
            cs@ == line@,
            i <= cs@.len(),
            used <= room <= 0xFFFF,
            out@ + fit_prefix(cs@.skip(i as int), room as int, used as int) == fit_prefix(cs@, room as int, 0),
        decreases cs@.len() - i,
    {
        let w: usize = match char_width(cs[i]) {
            Some(n) => n,
            None => 0,
        };
        proof {
            assert(cs@.skip(i as int)[0] == cs@[i as int]);
            assert(cs@.skip(i as int).drop_first() =~= cs@.skip(i as int + 1));
            assert(w as int == cells_of(cs@[i as int]));
        }
        if used + w > room {
            proof {
                assert(out@ + Seq::<char>::empty() =~= out@);
            }
            return out;
        }
        let ghost before = out@;
        push_char(&mut out, cs[i]);
        proof {
            assert(before + (seq![cs@[i as int]] + fit_prefix(cs@.skip(i as int + 1), room as int, used + w)) =~= out@ + fit_prefix(cs@.skip(i as int + 1), room as int, used + w));
        }
        used = used + w;
        i = i + 1;
    }
    proof {
        assert(cs@.skip(i as int) =~= Seq::<char>::empty());
        assert(out@ + Seq::<char>::empty() =~= out@);
    }
    out
}

/// The character at column `col` of `line` (see `char_at_column`).
fn char_at(line: &String, col: usize) -> (c: char)
    ensures
        c == char_at_column(line@, col as int, 0),
{
    let cs = chars_of(line.as_str());
    let mut cur: usize = 0;
    let mut i: usize = 0;
    proof {
        assert(cs@.skip(0) =~= cs@);
    }
    while i < cs.len()
        invariant
            cs@ == line@,
            i <= cs@.len(),
            cur <= col,
            char_at_column(cs@.skip(i as int), col as int, cur as int) == char_at_column(cs@, col as int, 0),
        decreases cs@.len() - i,
    {
        proof {
            assert(cs@.skip(i as int)[0] == cs@[i as int]);
            assert(cs@.skip(i as int).drop_first() =~= cs@.skip(i as int + 1));
        }
        if cur == col {
            return cs[i];
        }
        let w: usize = match char_width(cs[i]) {
            Some(n) => n,
            None => 0,
        };
        proof {
            assert(w as int == cells_of(cs@[i as int]));
        }
        if w > col - cur {
            proof {
                lemma_char_at_column_past(cs@.skip(i as int + 1), col as int, cur + w);
            }
            return ' ';
        }
        cur = cur + w;
        i = i + 1;
    }
    proof {
        assert(cs@.skip(i as int) =~= Seq::<char>::empty());
    }
    ' '
}

impl<M> Textarea<M> {
    /// `plan` is what the text area draws in a `width` by `height` area under
    /// `theme`: a full border, or only the bottom one when borderless, in the
    /// focus ring color while focused (else the border color); the text in
    /// `area_style`; the gutter and the text placed as `area_geometry` and
    /// `area_gutter` say; no text when there is no room; the placeholder (cut
    /// to the content width) when the area is empty and unfocused; otherwise
    /// the lines from the scroll offset that keeps the cursor's line visible
    /// (`visible_offset`), each numbered when numbers are shown and cut to the
    /// content width when lines wrap, and, while focused, the cursor cell when
    /// the cursor's line is shown and its column lies within the content
    /// width.
    pub open spec fn plan_is(&self, plan: TextareaPlan, width: u16, height: u16, theme: Theme) -> bool {
        let setup = self.setup();
        let focused = self.has_focus();
        let text = self.text();
        let (ty, sx, aw, ah) = area_geometry(setup.variant, width, height);
        let gw = area_gutter(setup.line_numbers, text);
        let cw = if aw > gw {
            aw - gw
        } else {
            0
        };
        let room = aw > 0 && ah > 0 && cw > 0;
        &&& plan.bottom_only == (setup.variant == TextareaVariant::Borderless)
        &&& plan.border_style == styled(
            Some(
                if focused {
                    theme.colors.focus_ring
                } else {
                    theme.colors.border
                },
            ),
            None,
            false,
        )
        &&& plan.text_style == area_style(setup, focused, theme)
        &&& plan.number_style == styled(Some(theme.colors.text_muted), None, false)
        &&& plan.number_x == sx && plan.text_x == sx + gw && plan.text_y == ty
        &&& plan.content_width == cw
        &&& plan.has_room == room
        &&& !room ==> plan.placeholder is None && plan.rows@.len() == 0 && plan.cursor is None
        &&& (room && text.len() == 0 && !focused) ==> plan.rows@.len() == 0 && plan.cursor is None && match setup.placeholder {
            Some(ph) => plan.placeholder matches Some(pl) && pl.0@ == ph.take(if cw < ph.len() { cw } else { ph.len() as int })
                && pl.1 == styled(Some(theme.colors.text_muted), None, false),
            None => plan.placeholder is None,
        }
        &&& (room && !(text.len() == 0 && !focused)) ==> ({
            let lines = text_lines(text);
            let (cl, cc) = line_col(text, self.cursor());
            let start = visible_offset(self.offset() as int, ah, cl);
            let cnt = visible_count(start, ah, lines.len() as int);
            &&& plan.placeholder is None
            &&& plan.rows@.len() == cnt
            &&& forall|k: int| 0 <= k < cnt ==> {
                &&& (#[trigger] plan.rows@[k]).y == ty + k
                &&& plan.rows@[k].number.is_some() == setup.line_numbers
                &&& setup.line_numbers ==> plan.rows@[k].number.unwrap()@ == area_number((start + k + 1) as nat, gw)
                &&& plan.rows@[k].text@ == if setup.line_wrap {
                    fit_prefix(lines[start + k], cw, 0)
                } else {
                    lines[start + k]
                }
            }
            &&& plan.cursor == if focused && start <= cl < start + cnt && cc < cw {
                Some(
                    AreaCursor {
                        x: (sx + gw + cc) as u16,
                        y: (ty + cl - start) as u16,
                        ch: if cc >= text_width(lines[cl]) {
                            ' '
                        } else {
                            char_at_column(lines[cl], cc, 0)
                        },
                        style: styled(Some(theme.colors.background), Some(theme.colors.text), false),
                    },
                )
            } else {
                None
            }
        })
    }

    /// What the text area draws in a `width` by `height` area under `theme`
    /// (see `plan_is`); nothing in an area narrower than four or lower than
    /// three.
    #[verifier::rlimit(60)]
    pub fn render_plan(&self, width: u16, height: u16, theme: &Theme) -> (p: Option<TextareaPlan>)
        ensures
            (width < 4 || height < 3) <==> p is None,
            p matches Some(plan) ==> self.plan_is(plan, width, height, *theme),
    {
        proof { use_type_invariant(self); }
        if width < 4 || height < 3 {
            return None;
        }
        let c = &theme.colors;
        let border_style = make_style(Some(if self.focused {
            c.focus_ring
        } else {
            c.border
        }), None, false);
        let text_style = self.get_style(theme);
        let number_style = make_style(Some(c.text_muted), None, false);
        let (ty, sx, aw, ah): (u16, u16, usize, usize) = match self.variant {
            TextareaVariant::Borderless => (0, 1, (width - 2) as usize, (height - 1) as usize),
            TextareaVariant::Default => (1, 2, (width - 4) as usize, (height - 2) as usize),
        };
        let lines = self.lines();
        let n = lines.len();
        let gw: usize = if self.line_numbers {
            let mut d = String::new();
            push_decimal(&mut d, if n > 0 { n as u64 } else { 1 });
            let dc = chars_of(d.as_str());
            proof {
                assert(dc@.len() <= 20) by {
                    lemma_decimal_short(if n > 0 { n as u64 } else { 1 });
                }
            }
            dc.len() + 1
        } else {
            0
        };
        let cw: usize = if aw > gw {
            aw - gw
        } else {
            0
        };
        let room = aw > 0 && ah > 0 && cw > 0;
        let mut plan = TextareaPlan {
            bottom_only: match self.variant {
                TextareaVariant::Borderless => true,
                TextareaVariant::Default => false,
            },
            border_style,
            text_style,
            number_x: sx,
            text_x: sx + gw as u16,
            text_y: ty,
            content_width: cw,
            has_room: room,
            placeholder: None,
            rows: Vec::new(),
            number_style,
            cursor: None,
        };
        if !room {
            return Some(plan);
        }
        let all = chars_of(self.value.as_str());
        if all.len() == 0 && !self.focused {
            match &self.placeholder {
                Some(ph) => {
                    let pc = chars_of(ph.as_str());
                    let take = if cw < pc.len() {
                        cw
                    } else {
                        pc.len()
                    };
                    let t = string_from_range(pc.as_slice(), 0, take);
                    plan.placeholder = Some((t, number_style));
                },
                None => {},
            }
            return Some(plan);
        }
        let (cl, cc) = self.cursor_line_col();
        let off = self.scroll_offset;
        let start: usize = if cl < off {
            cl
        } else if cl - off >= ah {
            cl - (ah - 1)
        } else {
            off
        };
        let cnt: usize = if start >= n {
            0
        } else if ah < n - start {
            ah
        } else {
            n - start
        };
        let mut rows: Vec<AreaRow> = Vec::new();
        let mut k: usize = 0;
        while k < cnt
            invariant
                k <= cnt,
                cnt <= ah <= 0xFFFF,
                cnt > 0 ==> start + cnt <= n,
                n == lines@.len() == text_lines(self.text()).len(),
                forall|i: int| 0 <= i < lines@.len() ==> (#[trigger] lines@[i])@ == text_lines(self.text())[i],
                ty <= 1,
                cw <= 0xFFFF,
                self.line_numbers ==> gw >= 1,
                gw as int == area_gutter(self.setup().line_numbers, self.text()),
                rows@.len() == k,
                forall|j: int| 0 <= j < k ==> {
                    &&& (#[trigger] rows@[j]).y == ty + j
                    &&& rows@[j].number.is_some() == self.line_numbers
                    &&& self.line_numbers ==> rows@[j].number.unwrap()@ == area_number((start + j + 1) as nat, gw as int)
                    &&& rows@[j].text@ == if self.line_wrap {
                        fit_prefix(text_lines(self.text())[start + j], cw as int, 0)
                    } else {
                        text_lines(self.text())[start + j]
                    }
                },
            decreases cnt - k,
        {
            let idx = start + k;
            let number = if self.line_numbers {
                Some(number_label(idx, gw))
            } else {
                None
            };
            let text = if self.line_wrap {
                fit_line(&lines[idx], cw)
            } else {
                lines[idx].clone()
            };
            rows.push(AreaRow { y: ty + k as u16, number, text });
            k = k + 1;
        }
        plan.rows = rows;
        if self.focused && start <= cl && cl - start < cnt && cc < cw {
            let line = &lines[cl];
            let ch = if cc >= str_width(line.as_str()) {
                ' '
            } else {
                char_at(line, cc)
            };
            plan.cursor = Some(AreaCursor {
                x: sx + gw as u16 + cc as u16,
                y: ty + (cl - start) as u16,
                ch,
                style: make_style(Some(c.background), Some(c.text), false),
            });
        }
        proof {
            let text = self.text();
            let (ty2, sx2, aw2, ah2) = area_geometry(self.setup().variant, width, height);
            assert(ty2 == ty && sx2 == sx && aw2 == aw && ah2 == ah);
            assert(start as int == visible_offset(self.offset() as int, ah as int, cl as int));
            assert(cnt as int == visible_count(start as int, ah as int, n as int));
            assert(plan.placeholder is None);
            assert(!(text.len() == 0 && !self.has_focus()));
        }
        Some(plan)
    }
}

} // verus!
