//! A single-line text input: typing inserts at the cursor, Backspace and
//! Delete remove around it, the arrows, Home and End move it, Enter submits.

use vstd::prelude::*;
use crate::event::{Event, EventResult, KeyCode, Widget};
use crate::handler::{handler_ready, Handler};
use crate::layout::{Constraints, ConstraintsView};
use crate::style::{make_style, merged, styled, Style};
use crate::text::{insert_char_at, owned, push_char, remove_chars};
use crate::theme::Theme;
use crate::width::{char_cells, char_width, str_width, text_width};

verus! {

/// How an input looks.
#[derive(Debug, Clone, Copy, PartialEq, Eq, Structural)]
pub enum TextInputVariant {
    /// A full border
    Default,
    /// A bottom border only
    Borderless,
    /// A full border, the text shown as dots
    Password,
}

impl Default for TextInputVariant {
    fn default() -> (v: Self)
        ensures
            v == TextInputVariant::Default,
    {
        TextInputVariant::Default
    }
}

/// What a text callback gives: no message without a callback, else one message
/// it gives for a `String` holding `text`.
pub open spec fn text_fired<M>(h: Option<Box<dyn Handler<(String,), M>>>, text: Seq<char>, out: Seq<M>) -> bool {
    match h {
        Some(f) => out.len() == 1 && exists|s: String| s@ == text && #[trigger] f.gives((s,), out[0]),
        None => out.len() == 0,
    }
}

/// Calls a text callback with a copy of `text`.
pub fn fire_text<M>(h: &Option<Box<dyn Handler<(String,), M>>>, text: &str) -> (out: Vec<M>)
    requires
        handler_ready(*h),
    ensures
        text_fired(*h, text@, out@),
{
    match h {
        Some(f) => {
            let s = owned(text);
            let ghost gs = s;
            let m = f.call((s,));
            let mut out = Vec::new();
            out.push(m);
            proof {
                assert(f.gives((gs,), out@[0]));
            }
            out
        },
        None => Vec::new(),
    }
}

/// What a key does to an input.
pub enum InputStep {
    Ignore,
    Insert(char),
    Backspace,
    Delete,
    Left,
    Right,
    Home,
    End,
    Submit,
}

/// A character typed without Control is inserted; Control+A moves to the end
/// and other Control characters are ignored; Backspace, Delete, the arrows,
/// Home, End and Enter do what they say; everything else is ignored.
pub open spec fn input_step(ev: Event) -> InputStep {
    match ev {
        Event::Key(k) => match k.code {
            KeyCode::Char(c) => if k.modifiers.control {
                if c == 'a' {
                    InputStep::End
                } else {
                    InputStep::Ignore
                }
            } else {
                InputStep::Insert(c)
            },
            KeyCode::Backspace => InputStep::Backspace,
            KeyCode::Delete => InputStep::Delete,
            KeyCode::Left => InputStep::Left,
            KeyCode::Right => InputStep::Right,
            KeyCode::Home => InputStep::Home,
            KeyCode::End => InputStep::End,
            KeyCode::Enter => InputStep::Submit,
            _ => InputStep::Ignore,
        },
        _ => InputStep::Ignore,
    }
}

/// The text and cursor after `step`.
pub open spec fn edited(text: Seq<char>, cursor: int, step: InputStep) -> (Seq<char>, int) {
    match step {
        InputStep::Insert(c) => (text.insert(cursor, c), cursor + 1),
        InputStep::Backspace => if cursor > 0 {
            (text.remove(cursor - 1), cursor - 1)
        } else {
            (text, cursor)
        },
        InputStep::Delete => if cursor < text.len() {
            (text.remove(cursor), cursor)
        } else {
            (text, cursor)
        },
        InputStep::Left => (text, if cursor > 0 {
            cursor - 1
        } else {
            cursor
        }),
        InputStep::Right => (text, if cursor < text.len() {
            cursor + 1
        } else {
            cursor
        }),
        InputStep::Home => (text, 0),
        InputStep::End => (text, text.len() as int),
        _ => (text, cursor),
    }
}

/// Whether `step` changes the text.
pub open spec fn changes_text(text: Seq<char>, cursor: int, step: InputStep) -> bool {
    match step {
        InputStep::Insert(_) => true,
        InputStep::Backspace => cursor > 0,
        InputStep::Delete => cursor < text.len(),
        _ => false,
    }
}

/// The width a character adds: its columns, none for a control character.
pub open spec fn cells_of(c: char) -> int {
    match char_cells(c) {
        Some(n) => n as int,
        None => 0,
    }
}

/// How many characters from `i` on fit in `avail` columns when `w` are used.
pub open spec fn fit_from(s: Seq<char>, i: int, w: int, avail: int) -> int
    decreases s.len() - i,
{
    if i >= s.len() || i < 0 {
        i
    } else if w + cells_of(s[i]) > avail {
        i
    } else {
        fit_from(s, i + 1, w + cells_of(s[i]), avail)
    }
}

/// The text cut to the characters that fit in `avail` columns, when it is wider.
pub open spec fn fitted(s: Seq<char>, avail: int) -> Seq<char> {
    if text_width(s) > avail {
        s.take(fit_from(s, 0, 0, avail))
    } else {
        s
    }
}

/// `n` dots.
pub open spec fn dots(n: nat) -> Seq<char> {
    Seq::new(n, |i: int| '•')
}

/// The characters that fit, from `i` on, lie within the text.
proof fn lemma_fit_from_bounds(s: Seq<char>, i: int, w: int, avail: int)
    requires
        0 <= i <= s.len(),
    ensures
        i <= fit_from(s, i, w, avail) <= s.len(),
    decreases s.len() - i,
{
    if i < s.len() && w + cells_of(s[i]) <= avail {
        lemma_fit_from_bounds(s, i + 1, w + cells_of(s[i]), avail);
    }
}

/// The style of an input with `setup` under `theme`: the theme's interactive
/// style for the state, under the custom focus style while focused, else under
/// the custom style.
pub open spec fn input_style(setup: InputSetup, focused: bool, theme: Theme) -> Style {
    let base = if setup.disabled {
        theme.styles.interactive_disabled
    } else if focused {
        theme.styles.interactive_focused
    } else {
        theme.styles.interactive
    };
    if focused && setup.custom_focus_style.is_some() {
        merged(setup.custom_focus_style.unwrap(), base)
    } else {
        match setup.custom_style {
            Some(c) => merged(c, base),
            None => base,
        }
    }
}

/// The character under the cursor: a space at the end, a dot in a password,
/// else the character itself.
pub open spec fn input_cursor_char(variant: TextInputVariant, text: Seq<char>, cursor: int) -> char {
    if cursor >= text.len() {
        ' '
    } else if variant == TextInputVariant::Password {
        '•'
    } else {
        text[cursor]
    }
}

/// What an input shows of `text`: dots for a password, else the text.
pub open spec fn input_shown(variant: TextInputVariant, text: Seq<char>) -> Seq<char> {
    if variant == TextInputVariant::Password {
        dots(text.len())
    } else {
        text
    }
}

/// The characters of `s` that fit in `avail` columns when wider (see `fitted`).
pub fn fit_text(s: &str, avail: usize) -> (r: String)
    ensures
        r@ == fitted(s@, avail as int),
{
    if str_width(s) <= avail {
        return owned(s);
    }
    let cs = crate::text::chars_of(s);
    let mut r = String::new();
    let mut w: usize = 0;
    let mut i: usize = 0;
    proof {
        lemma_fit_from_bounds(cs@, 0, 0, avail as int);
    }
    while i < cs.len()
        invariant
            cs@ == s@,
            text_width(s@) > avail,
            i <= cs@.len(),
            w <= avail,
            r@ == cs@.take(i as int),
            fit_from(cs@, i as int, w as int, avail as int) == fit_from(cs@, 0, 0, avail as int),
        ensures
            r@ == cs@.take(i as int),
            fit_from(cs@, 0, 0, avail as int) == i,
        decreases cs@.len() - i,
    {
        let cw: usize = match char_width(cs[i]) {
            Some(n) => n,
            None => 0,
        };
        proof {
            assert(cells_of(cs@[i as int]) == cw);
        }
        if cw > avail - w {
            break;
        }
        push_char(&mut r, cs[i]);
        w = w + cw;
        i = i + 1;
        proof {
            assert(r@ =~= cs@.take(i as int));
        }
    }
    r
}

/// Typing a character and then pressing Backspace gives back the text and the
/// cursor.
pub proof fn law_insert_then_backspace(text: Seq<char>, cursor: int, c: char)
    requires
        0 <= cursor <= text.len(),
    ensures
        ({
            let (t1, c1) = edited(text, cursor, InputStep::Insert(c));
            edited(t1, c1, InputStep::Backspace) == (text, cursor)
        }),
{
    assert(text.insert(cursor, c).remove(cursor) =~= text);
}

/// Delete removes the character at the cursor, keeping what comes before it
/// and moving what comes after it back by one, and leaves the cursor in place;
/// Backspace removes the character before the cursor and moves the cursor
/// back onto its place.
pub proof fn law_delete_and_backspace_positions(text: Seq<char>, cursor: int)
    requires
        0 <= cursor <= text.len(),
    ensures
        ({
            let (t, c) = edited(text, cursor, InputStep::Delete);
            &&& c == cursor
            &&& cursor < text.len() ==> t.len() == text.len() - 1 && (forall|i: int| 0 <= i < cursor ==> #[trigger] t[i] == text[i])
                && (forall|i: int| cursor <= i < t.len() ==> #[trigger] t[i] == text[i + 1])
            &&& cursor == text.len() ==> t == text
        }),
        ({
            let (t, c) = edited(text, cursor, InputStep::Backspace);
            &&& cursor > 0 ==> c == cursor - 1 && t.len() == text.len() - 1 && (forall|i: int| 0 <= i < cursor - 1 ==> #[trigger] t[i] == text[i])
                && (forall|i: int| cursor - 1 <= i < t.len() ==> #[trigger] t[i] == text[i + 1])
            &&& cursor == 0 ==> t == text && c == 0
        }),
{
}

/// Typing a character puts it at the cursor, keeps what came before, moves
/// the rest on by one, and moves the cursor past it.
pub proof fn law_insert_at_cursor(text: Seq<char>, cursor: int, ch: char)
    requires
        0 <= cursor <= text.len(),
    ensures
        ({
            let (t, c) = edited(text, cursor, InputStep::Insert(ch));
            &&& c == cursor + 1
            &&& t.len() == text.len() + 1
            &&& t[cursor] == ch
            &&& forall|i: int| 0 <= i < cursor ==> #[trigger] t[i] == text[i]
            &&& forall|i: int| cursor <= i < text.len() ==> #[trigger] t[i + 1] == text[i]
        }),
{
}

/// Every step keeps the cursor within the text.
pub proof fn law_cursor_stays_in_text(text: Seq<char>, cursor: int, step: InputStep)
    requires
        0 <= cursor <= text.len(),
    ensures
        ({
            let (t, c) = edited(text, cursor, step);
            0 <= c <= t.len()
        }),
{
}

/// A single-line text input reporting changes and submissions as `M`.
#[verifier::reject_recursive_types(M)]
pub struct TextInput<M = ()> {
    value: String,
    placeholder: Option<String>,
    cursor_position: usize,
    variant: TextInputVariant,
    disabled: bool,
    focused: bool,
    custom_style: Option<Style>,
    custom_focus_style: Option<Style>,
    on_change: Option<Box<dyn Handler<(String,), M>>>,
    on_submit: Option<Box<dyn Handler<(String,), M>>>,
}

/// The settings of an input: everything but its text, cursor and focus.
pub struct InputSetup {
    pub placeholder: Option<Seq<char>>,
    pub variant: TextInputVariant,
    pub disabled: bool,
    pub custom_style: Option<Style>,
    pub custom_focus_style: Option<Style>,
}

impl<M> TextInput<M> {
    #[verifier::type_invariant]
    spec fn inv(&self) -> bool {
        &&& handler_ready(self.on_change)
        &&& handler_ready(self.on_submit)
        &&& self.cursor_position <= self.value@.len()
    }

    pub closed spec fn text(&self) -> Seq<char> {
        self.value@
    }

    pub closed spec fn cursor(&self) -> int {
        self.cursor_position as int
    }

    pub closed spec fn has_focus(&self) -> bool {
        self.focused
    }

    pub closed spec fn setup(&self) -> InputSetup {
        InputSetup {
            placeholder: match self.placeholder {
                Some(p) => Some(p@),
                None => None,
            },
            variant: self.variant,
            disabled: self.disabled,
            custom_style: self.custom_style,
            custom_focus_style: self.custom_focus_style,
        }
    }

    pub closed spec fn change_handler(&self) -> Option<Box<dyn Handler<(String,), M>>> {
        self.on_change
    }

    pub closed spec fn submit_handler(&self) -> Option<Box<dyn Handler<(String,), M>>> {
        self.on_submit
    }

    /// Settings and callbacks as in `other`.
    pub open spec fn same_setup(&self, other: &Self) -> bool {
        &&& self.setup() == other.setup()
        &&& self.change_handler() == other.change_handler()
        &&& self.submit_handler() == other.submit_handler()
    }

    /// The cursor, as a character index; it lies within the text.
    pub fn cursor_position(&self) -> (c: usize)
        ensures
            c == self.cursor(),
            c <= self.text().len(),
    {
        proof { use_type_invariant(self); }
        self.cursor_position
    }

    /// An empty, enabled input of the default variant.
    pub fn new() -> (t: Self)
        ensures
            t.text().len() == 0 && t.cursor() == 0 && !t.has_focus(),
            t.setup() == (InputSetup {
                placeholder: None,
                variant: TextInputVariant::Default,
                disabled: false,
                custom_style: None,
                custom_focus_style: None,
            }),
            t.change_handler().is_none() && t.submit_handler().is_none(),
    {
        TextInput {
            value: String::new(),
            placeholder: None,
            cursor_position: 0,
            variant: TextInputVariant::Default,
            disabled: false,
            focused: false,
            custom_style: None,
            custom_focus_style: None,
            on_change: None,
            on_submit: None,
        }
    }

    pub fn variant(self, variant: TextInputVariant) -> (t: Self)
        ensures
            t.setup() == (InputSetup { variant, ..self.setup() }),
            t.text() == self.text() && t.cursor() == self.cursor() && t.has_focus() == self.has_focus(),
            t.change_handler() == self.change_handler() && t.submit_handler() == self.submit_handler(),
    {
        proof { use_type_invariant(&self); }
        TextInput { variant, ..self }
    }

    /// Sets the text and puts the cursor at its end.
    pub fn value(self, value: &str) -> (t: Self)
        ensures
            t.text() == value@ && t.cursor() == value@.len(),
            t.same_setup(&self) && t.has_focus() == self.has_focus(),
    {
        proof { use_type_invariant(&self); }
        let v = owned(value);
        let n = crate::text::chars_of(value).len();
        TextInput { value: v, cursor_position: n, ..self }
    }

    pub fn placeholder(self, placeholder: &str) -> (t: Self)
        ensures
            t.setup() == (InputSetup { placeholder: Some(placeholder@), ..self.setup() }),
            t.text() == self.text() && t.cursor() == self.cursor() && t.has_focus() == self.has_focus(),
            t.change_handler() == self.change_handler() && t.submit_handler() == self.submit_handler(),
    {
        proof { use_type_invariant(&self); }
        TextInput { placeholder: Some(owned(placeholder)), ..self }
    }

    pub fn disabled(self, disabled: bool) -> (t: Self)
        ensures
            t.setup() == (InputSetup { disabled, ..self.setup() }),
            t.text() == self.text() && t.cursor() == self.cursor() && t.has_focus() == self.has_focus(),
            t.change_handler() == self.change_handler() && t.submit_handler() == self.submit_handler(),
    {
        proof { use_type_invariant(&self); }
        TextInput { disabled, ..self }
    }

    pub fn style(self, style: Style) -> (t: Self)
        ensures
            t.setup() == (InputSetup { custom_style: Some(style), ..self.setup() }),
            t.text() == self.text() && t.cursor() == self.cursor() && t.has_focus() == self.has_focus(),
            t.change_handler() == self.change_handler() && t.submit_handler() == self.submit_handler(),
    {
        proof { use_type_invariant(&self); }
        TextInput { custom_style: Some(style), ..self }
    }

    pub fn focus_style(self, style: Style) -> (t: Self)
        ensures
            t.setup() == (InputSetup { custom_focus_style: Some(style), ..self.setup() }),
            t.text() == self.text() && t.cursor() == self.cursor() && t.has_focus() == self.has_focus(),
            t.change_handler() == self.change_handler() && t.submit_handler() == self.submit_handler(),
    {
        proof { use_type_invariant(&self); }
        TextInput { custom_focus_style: Some(style), ..self }
    }

    /// Sets the callback called with the text after each change.
    pub fn on_change<F: Fn(String) -> M + 'static>(self, handler: F) -> (t: Self)
        requires
            forall|a: (String,)| call_requires(handler, a),
        ensures
            t.change_handler().is_some(),
            forall|a: (String,), m: M| t.change_handler().unwrap().gives(a, m) == call_ensures(handler, a, m),
            t.setup() == self.setup() && t.submit_handler() == self.submit_handler(),
            t.text() == self.text() && t.cursor() == self.cursor() && t.has_focus() == self.has_focus(),
    {
        proof { use_type_invariant(&self); }
        let h: Box<dyn Handler<(String,), M>> = Box::new(handler);
        TextInput {
            value: self.value,
            placeholder: self.placeholder,
            cursor_position: self.cursor_position,
            variant: self.variant,
            disabled: self.disabled,
            focused: self.focused,
            custom_style: self.custom_style,
            custom_focus_style: self.custom_focus_style,
            on_change: Some(h),
            on_submit: self.on_submit,
        }
    }

    /// Sets the callback called with the text on Enter.
    pub fn on_submit<F: Fn(String) -> M + 'static>(self, handler: F) -> (t: Self)
        requires
            forall|a: (String,)| call_requires(handler, a),
        ensures
            t.submit_handler().is_some(),
            forall|a: (String,), m: M| t.submit_handler().unwrap().gives(a, m) == call_ensures(handler, a, m),
            t.setup() == self.setup() && t.change_handler() == self.change_handler(),
            t.text() == self.text() && t.cursor() == self.cursor() && t.has_focus() == self.has_focus(),
    {
        proof { use_type_invariant(&self); }
        let h: Box<dyn Handler<(String,), M>> = Box::new(handler);
        TextInput {
            value: self.value,
            placeholder: self.placeholder,
            cursor_position: self.cursor_position,
            variant: self.variant,
            disabled: self.disabled,
            focused: self.focused,
            custom_style: self.custom_style,
            custom_focus_style: self.custom_focus_style,
            on_change: self.on_change,
            on_submit: Some(h),
        }
    }

    /// The text.
    pub fn get_value(&self) -> (s: &str)
        ensures
            s@ == self.text(),
    {
        self.value.as_str()
    }

    /// The style under `theme`: the theme's interactive style for the state,
    /// under the custom focus style while focused, else under the custom style.
    pub fn get_style(&self, theme: &Theme) -> (s: Style)
        ensures
            s == input_style(self.setup(), self.has_focus(), *theme),
    {
        let base = if self.disabled {
            theme.styles.interactive_disabled
        } else if self.focused {
            theme.styles.interactive_focused
        } else {
            theme.styles.interactive
        };
        if self.focused {
            if let Some(f) = self.custom_focus_style {
                return f.merge(base);
            }
        }
        match self.custom_style {
            Some(c) => c.merge(base),
            None => base,
        }
    }

    /// Applies an editing step to the text and cursor, giving the change
    /// message when the text changed.
    fn apply(&mut self, step: InputStep) -> (out: Vec<M>)
        ensures
            ({
                let (t, c) = edited(old(self).text(), old(self).cursor(), step);
                final(self).text() == t && final(self).cursor() == c
            }),
            final(self).same_setup(old(self)),
            final(self).has_focus() == old(self).has_focus(),
            changes_text(old(self).text(), old(self).cursor(), step) ==> text_fired(
                old(self).change_handler(),
                final(self).text(),
                out@,
            ),
            !changes_text(old(self).text(), old(self).cursor(), step) ==> out@.len() == 0,
    {
        proof { use_type_invariant(&*self); }
        let cur = self.cursor_position;
        let n = crate::text::chars_of(self.value.as_str()).len();
        match step {
            InputStep::Insert(c) => {
                let v = insert_char_at(self.value.as_str(), cur, c);
                let n2 = crate::text::chars_of(v.as_str()).len();
                self.value = v;
                self.cursor_position = cur + 1;
                proof {
                    assert(n2 == n + 1);
                }
                fire_text(&self.on_change, self.value.as_str())
            },
            InputStep::Backspace => {
                if cur > 0 {
                    let v = remove_chars(self.value.as_str(), cur - 1, cur);
                    proof {
                        assert(v@ =~= old(self).value@.remove(cur - 1));
                    }
                    self.cursor_position = cur - 1;
                    self.value = v;
                    fire_text(&self.on_change, self.value.as_str())
                } else {
                    Vec::new()
                }
            },
            InputStep::Delete => {
                if cur < n {
                    let v = remove_chars(self.value.as_str(), cur, cur + 1);
                    proof {
                        assert(v@ =~= old(self).value@.remove(cur as int));
                    }
                    self.value = v;
                    fire_text(&self.on_change, self.value.as_str())
                } else {
                    Vec::new()
                }
            },
            InputStep::Left => {
                if cur > 0 {
                    self.cursor_position = cur - 1;
                }
                Vec::new()
            },
            InputStep::Right => {
                if cur < n {
                    self.cursor_position = cur + 1;
                }
                Vec::new()
            },
            InputStep::Home => {
                self.cursor_position = 0;
                Vec::new()
            },
            InputStep::End => {
                self.cursor_position = n;
                Vec::new()
            },
            _ => Vec::new(),
        }
    }

    /// What the input shows in `avail` columns: the text, as dots for a
    /// password, cut to the characters that fit when wider.
    pub fn display_text(&self, avail: usize) -> (s: String)
        ensures
            s@ == fitted(
                if self.setup().variant == TextInputVariant::Password {
                    dots(self.text().len())
                } else {
                    self.text()
                },
                avail as int,
            ),
    {
        let shown = match self.variant {
            TextInputVariant::Password => {
                let n = crate::text::chars_of(self.value.as_str()).len();
                let mut d = String::new();
                let mut i: usize = 0;
                while i < n
                    invariant
                        i <= n,
                        d@ == dots(i as nat),
                    decreases n - i,
                {
                    push_char(&mut d, '•');
                    i = i + 1;
                    proof {
                        assert(d@ =~= dots(i as nat));
                    }
                }
                d
            },
            _ => owned(self.value.as_str()),
        };
        fit_text(shown.as_str(), avail)
    }

    /// The column of the cursor: the width of the text before it.
    pub fn cursor_column(&self) -> (c: usize)
        ensures
            c == text_width(self.text().take(self.cursor())),
    {
        proof { use_type_invariant(self); }
        let cs = crate::text::chars_of(self.value.as_str());
        let before = crate::text::string_from_range(cs.as_slice(), 0, self.cursor_position);
        str_width(before.as_str())
    }

    /// The character under the cursor: a space at the end, a dot in a password,
    /// else the character itself.
    pub fn cursor_char(&self) -> (c: char)
        ensures
            c == input_cursor_char(self.setup().variant, self.text(), self.cursor()),
    {
        proof { use_type_invariant(self); }
        let cs = crate::text::chars_of(self.value.as_str());
        if self.cursor_position >= cs.len() {
            ' '
        } else if let TextInputVariant::Password = self.variant {
            '•'
        } else {
            cs[self.cursor_position]
        }
    }
    /// Whether `plan` is what the input draws in a `width` by `height` area
    /// under `theme`: a full border (a bottom one when borderless) in the focus
    /// ring or border color; then, in the room inside, the placeholder when
    /// empty and unfocused, a cursor cell at the start when empty and focused,
    /// else the shown text cut to the room and, when focused and within it, the
    /// cursor over the character under it.
    pub open spec fn input_plan_is(&self, plan: InputPlan, width: u16, height: u16, theme: Theme) -> bool {
        let setup = self.setup();
        let focused = self.has_focus();
        let text = self.text();
        let borderless = setup.variant == TextInputVariant::Borderless;
        let x: int = if borderless { 1 } else { 2 };
        let room: int = if borderless { width - 2 } else { width - 4 };
        &&& plan.bottom_only == borderless
        &&& plan.border_style == styled(
            Some(
                if focused {
                    theme.colors.focus_ring
                } else {
                    theme.colors.border
                },
            ),
            None,
            false,
        )
        &&& plan.text_x == x && plan.text_y == 1
        &&& plan.room == room
        &&& room == 0 ==> plan.placeholder is None && plan.text is None && plan.cursor is None
        &&& (room > 0 && text.len() == 0 && !focused) ==> plan.text is None && plan.cursor is None
            && match setup.placeholder {
            Some(ph) => plan.placeholder matches Some(pl) && pl.0@ == ph.take(
                if room < ph.len() {
                    room
                } else {
                    ph.len() as int
                },
            ) && pl.1 == styled(Some(theme.colors.text_muted), None, false),
            None => plan.placeholder is None,
        }
        &&& (room > 0 && text.len() == 0 && focused) ==> plan.placeholder is None && plan.text is None
            && plan.cursor == Some(InputCursor { x: x as u16, y: 1, ch: ' ', style: input_cursor_style(theme) })
        &&& (room > 0 && text.len() > 0) ==> ({
            let col = text_width(text.take(self.cursor()));
            &&& plan.placeholder is None
            &&& plan.text matches Some(t) && t.0@ == fitted(input_shown(setup.variant, text), room)
                && t.1 == input_style(setup, focused, theme)
            &&& plan.cursor == if focused && col <= room {
                Some(
                    InputCursor {
                        x: (x + col) as u16,
                        y: 1,
                        ch: input_cursor_char(setup.variant, text, self.cursor()),
                        style: input_cursor_style(theme),
                    },
                )
            } else {
                None
            }
        })
    }

    /// What the input draws in a `width` by `height` area under `theme` (see
    /// `input_plan_is`); nothing in an area narrower than four or lower than
    /// three.
    pub fn render_plan(&self, width: u16, height: u16, theme: &Theme) -> (p: Option<InputPlan>)
        ensures
            (width < 4 || height < 3) <==> p is None,
            p matches Some(plan) ==> self.input_plan_is(plan, width, height, *theme),
    {
        proof { use_type_invariant(self); }
        if width < 4 || height < 3 {
            return None;
        }
        let c = &theme.colors;
        let border_style = make_style(Some(if self.focused {
            c.focus_ring
        } else {
            c.border
        }), None, false);
        let borderless = match self.variant {
            TextInputVariant::Borderless => true,
            _ => false,
        };
        let (x, room): (u16, usize) = if borderless {
            (1, (width - 2) as usize)
        } else {
            (2, (width - 4) as usize)
        };
        let mut plan = InputPlan {
            bottom_only: borderless,
            border_style,
            text_x: x,
            text_y: 1,
            room,
            placeholder: None,
            text: None,
            cursor: None,
        };
        if room == 0 {
            return Some(plan);
        }
        let cursor_style = make_style(Some(c.background), Some(c.text), false);
        if crate::text::chars_of(self.value.as_str()).len() == 0 {
            if !self.focused {
                if let Some(ph) = &self.placeholder {
                    let cs = crate::text::chars_of(ph.as_str());
                    let k = if room < cs.len() {
                        room
                    } else {
                        cs.len()
                    };
                    let shown = crate::text::string_from_range(cs.as_slice(), 0, k);
                    plan.placeholder = Some((shown, make_style(Some(c.text_muted), None, false)));
                }
            } else {
                plan.cursor = Some(InputCursor { x, y: 1, ch: ' ', style: cursor_style });
            }
            return Some(plan);
        }
        let col = self.cursor_column();
        plan.text = Some((self.display_text(room), self.get_style(theme)));
        if self.focused && col <= room {
            plan.cursor = Some(InputCursor { x: x + col as u16, y: 1, ch: self.cursor_char(), style: cursor_style });
        }
        Some(plan)
    }
}

/// The cursor cell an input draws.
pub struct InputCursor {
    pub x: u16,
    pub y: u16,
    pub ch: char,
    pub style: Style,
}

/// What a text input draws in an area.
pub struct InputPlan {
    /// Only the bottom border is drawn (else a full border).
    pub bottom_only: bool,
    pub border_style: Style,
    /// Where the text starts.
    pub text_x: u16,
    pub text_y: u16,
    /// The columns the text has.
    pub room: usize,
    /// The placeholder and its style, when the input is empty and unfocused.
    pub placeholder: Option<(String, Style)>,
    /// The text shown and its style, when there is text.
    pub text: Option<(String, Style)>,
    /// The cursor cell, when focused and within the room.
    pub cursor: Option<InputCursor>,
}

/// The cursor's style: the background color on the text color.
pub open spec fn input_cursor_style(theme: Theme) -> Style {
    styled(Some(theme.colors.background), Some(theme.colors.text), false)
}

impl<M> Widget<M> for TextInput<M> {
    open spec fn can_focus(&self) -> bool {
        !self.setup().disabled
    }

    open spec fn focus_flag(&self) -> bool {
        self.has_focus()
    }

    open spec fn keeps_focus(&self) -> bool {
        true
    }

    /// A text input ignores every event while disabled, and events with no
    /// editing step.
    open spec fn passes_over(&self, event: Event) -> bool {
        self.setup().disabled || input_step(event) is Ignore
    }

    /// A disabled input ignores everything; otherwise each step of
    /// `input_step` is applied and consumed, the change callback called when
    /// the text changed and the submit callback on Enter.
    fn handle_event(&mut self, event: &Event) -> (r: EventResult<M>)
        ensures
            final(self).same_setup(old(self)),
            final(self).has_focus() == old(self).has_focus(),
            (old(self).setup().disabled || input_step(*event) is Ignore) ==> r is Ignored && final(self).text()
                == old(self).text() && final(self).cursor() == old(self).cursor(),
            !(old(self).setup().disabled || input_step(*event) is Ignore) ==> ({
                let step = input_step(*event);
                let (t, c) = edited(old(self).text(), old(self).cursor(), step);
                &&& final(self).text() == t
                &&& final(self).cursor() == c
                &&& r matches EventResult::Consumed(v) && if step is Submit {
                    text_fired(old(self).submit_handler(), old(self).text(), v@)
                } else if changes_text(old(self).text(), old(self).cursor(), step) {
                    text_fired(old(self).change_handler(), t, v@)
                } else {
                    v@.len() == 0
                }
            }),
            input_handled(*old(self), *final(self), *event, r),
    {
        proof { use_type_invariant(&*self); }
        if self.disabled {
            return EventResult::Ignored;
        }
        let step = match event {
            Event::Key(k) => match k.code {
                KeyCode::Char(c) => if k.modifiers.control {
                    if c == 'a' {
                        InputStep::End
                    } else {
                        InputStep::Ignore
                    }
                } else {
                    InputStep::Insert(c)
                },
                KeyCode::Backspace => InputStep::Backspace,
                KeyCode::Delete => InputStep::Delete,
                KeyCode::Left => InputStep::Left,
                KeyCode::Right => InputStep::Right,
                KeyCode::Home => InputStep::Home,
                KeyCode::End => InputStep::End,
                KeyCode::Enter => InputStep::Submit,
                _ => InputStep::Ignore,
            },
            _ => InputStep::Ignore,
        };
        match step {
            InputStep::Ignore => EventResult::Ignored,
            InputStep::Submit => EventResult::Consumed(fire_text(&self.on_submit, self.value.as_str())),
            _ => EventResult::Consumed(self.apply(step)),
        }
    }

    /// At least 20 columns, exactly three lines.
    fn constraints(&self) -> (c: Constraints)
        ensures
            c@ == (ConstraintsView { min_width: 20, max_width: None, min_height: 3, max_height: Some(3), flex: None }),
    {
        Constraints { min_width: 20, max_width: None, min_height: 3, max_height: Some(3), flex: None }
    }

    fn focusable(&self) -> (b: bool)
        ensures
            b == !self.setup().disabled,
    {
        !self.disabled
    }

    fn is_focused(&self) -> (b: bool)
        ensures
            b == self.has_focus(),
    {
        self.focused
    }

    fn set_focused(&mut self, focused: bool)
        ensures
            final(self).has_focus() == focused,
            final(self).same_setup(old(self)),
            final(self).text() == old(self).text() && final(self).cursor() == old(self).cursor(),
    {
        proof { use_type_invariant(&*self); }
        self.focused = focused;
    }
}

impl<M> Default for TextInput<M> {
    fn default() -> (t: Self)
        ensures
            t.text().len() == 0 && t.cursor() == 0,
            t.change_handler().is_none() && t.submit_handler().is_none(),
    {
        TextInput::new()
    }
}

/// An empty input (see `TextInput::new`).
pub fn text_input<M>() -> (t: TextInput<M>)
    ensures
        t.text().len() == 0 && t.cursor() == 0 && !t.has_focus(),
        t.setup().variant == TextInputVariant::Default && !t.setup().disabled,
        t.change_handler().is_none() && t.submit_handler().is_none(),
{
    TextInput::new()
}

/// What handling `event` does to a text input (`before` to `after`, result
/// `r`): a disabled input, or an event with no editing step, is ignored;
/// otherwise the text and cursor become what `edited` says and the submit or
/// change callback reports it.
pub open spec fn input_handled<M>(before: TextInput<M>, after: TextInput<M>, event: Event, r: EventResult<M>) -> bool {
    &&& after.same_setup(&before)
    &&& after.has_focus() == before.has_focus()
    &&& (before.setup().disabled || input_step(event) is Ignore) ==> r is Ignored && after.text() == before.text()
        && after.cursor() == before.cursor()
    &&& !(before.setup().disabled || input_step(event) is Ignore) ==> ({
        let step = input_step(event);
        let (t, c) = edited(before.text(), before.cursor(), step);
        &&& after.text() == t
        &&& after.cursor() == c
        &&& r matches EventResult::Consumed(v) && if step is Submit {
            text_fired(before.submit_handler(), before.text(), v@)
        } else if changes_text(before.text(), before.cursor(), step) {
            text_fired(before.change_handler(), t, v@)
        } else {
            v@.len() == 0
        }
    })
}

} // verus!
