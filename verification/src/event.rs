//! Input events and the result of handling one.

use vstd::prelude::*;
use crate::layout::Constraints;
use crate::widget_id::WidgetId;

verus! {

/// A key on the keyboard.
#[derive(Debug, Clone, Copy, PartialEq, Eq, Structural)]
pub enum KeyCode {
    Backspace,
    Enter,
    Left,
    Right,
    Up,
    Down,
    Home,
    End,
    PageUp,
    PageDown,
    Tab,
    BackTab,
    Delete,
    Insert,
    F(u8),
    Char(char),
    Null,
    Esc,
}

/// Modifier keys held during a key press.
#[derive(Debug, Clone, Copy, PartialEq, Eq, Structural)]
pub struct KeyModifiers {
    pub shift: bool,
    pub control: bool,
    pub alt: bool,
}

impl KeyModifiers {
    /// No modifier held.
    pub fn none() -> (m: Self)
        ensures
            !m.shift && !m.control && !m.alt,
    {
        KeyModifiers { shift: false, control: false, alt: false }
    }
}

/// A key press.
#[derive(Debug, Clone, Copy, PartialEq, Eq, Structural)]
pub struct KeyEvent {
    pub code: KeyCode,
    pub modifiers: KeyModifiers,
}

impl KeyEvent {
    /// A press of `code` without modifiers.
    pub fn new(code: KeyCode) -> (e: Self)
        ensures
            e.code == code,
            !e.modifiers.shift && !e.modifiers.control && !e.modifiers.alt,
    {
        KeyEvent { code, modifiers: KeyModifiers::none() }
    }
}

/// A mouse button.
#[derive(Debug, Clone, Copy, PartialEq, Eq, Structural)]
pub enum MouseButton {
    Left,
    Right,
    Middle,
}

/// What the mouse did.
#[derive(Debug, Clone, Copy, PartialEq, Eq, Structural)]
pub enum MouseEventKind {
    Down(MouseButton),
    Up(MouseButton),
    Drag(MouseButton),
    Moved,
    ScrollDown,
    ScrollUp,
}

/// A mouse event at a cell of the terminal.
#[derive(Debug, Clone, Copy, PartialEq, Eq, Structural)]
pub struct MouseEvent {
    pub kind: MouseEventKind,
    pub column: u16,
    pub row: u16,
}

/// An input event.
#[derive(Debug, Clone, Copy, PartialEq, Eq, Structural)]
pub enum Event {
    Key(KeyEvent),
    Mouse(MouseEvent),
    Resize(u16, u16),
    FocusGained,
    FocusLost,
}

/// The result of handling an event: consumed, with the messages it produced, or
/// ignored (left for other widgets).
#[derive(Debug, Clone)]
pub enum EventResult<M> {
    Consumed(Vec<M>),
    Ignored,
}

impl<M> EventResult<M> {
    /// Consumed, without messages.
    pub fn consumed() -> (r: Self)
        ensures
            r matches EventResult::Consumed(v) && v@.len() == 0,
    {
        EventResult::Consumed(Vec::new())
    }

    /// Consumed, with one message.
    pub fn consumed_with(message: M) -> (r: Self)
        ensures
            r matches EventResult::Consumed(v) && v@ == seq![message],
    {
        let mut v = Vec::new();
        v.push(message);
        EventResult::Consumed(v)
    }

    pub fn is_consumed(&self) -> (b: bool)
        ensures
            b == (self is Consumed),
    {
        match self {
            EventResult::Consumed(_) => true,
            EventResult::Ignored => false,
        }
    }

    /// The messages produced (none when ignored).
    pub fn messages_ref(&self) -> (m: &[M])
        ensures
            m@ == match self {
                EventResult::Consumed(v) => v@,
                EventResult::Ignored => Seq::<M>::empty(),
            },
    {
        match self {
            EventResult::Consumed(v) => v.as_slice(),
            EventResult::Ignored => &[],
        }
    }
}

/// A widget: it handles events and tells its size constraints.
pub trait Widget<M> {
    /// Whether the widget is known to ignore `event`: a widget that says so
    /// gives an ignored result for it. By default nothing is known.
    open spec fn passes_over(&self, event: Event) -> bool {
        false
    }

    /// Handles an input event.
    fn handle_event(&mut self, event: &Event) -> (r: EventResult<M>)
        ensures
            old(self).passes_over(*event) ==> r is Ignored,
    ;

    /// Whether `c` is what `constraints` gives for the widget. By default
    /// nothing is known of it.
    open spec fn sized_as(&self, c: Constraints) -> bool {
        true
    }

    /// The size constraints of the widget.
    fn constraints(&self) -> (c: Constraints)
        ensures
            self.sized_as(c),
    ;

    /// Whether the widget takes keyboard focus (`focusable` answers it). By
    /// default it does not.
    open spec fn can_focus(&self) -> bool {
        false
    }

    /// The widget's focus flag. By default it has none, so it is never focused.
    open spec fn focus_flag(&self) -> bool {
        false
    }

    /// Whether `set_focused` decides the focus flag: it then sets the flag to
    /// the value given. By default it does not.
    open spec fn keeps_focus(&self) -> bool {
        false
    }

    /// Whether the widget can receive keyboard focus.
    fn focusable(&self) -> (r: bool)
        ensures
            r == self.can_focus(),
    ;

    /// Whether the widget has focus.
    fn is_focused(&self) -> (r: bool)
        ensures
            r == self.focus_flag(),
    ;

    /// Sets the focus state.
    fn set_focused(&mut self, focused: bool)
        ensures
            old(self).keeps_focus() ==> final(self).focus_flag() == focused,
            final(self).keeps_focus() == old(self).keeps_focus(),
    ;

    /// Adds the identifiers of the focusable parts of this widget, found at
    /// `current_path`, to `chain` (containers only; nothing by default).
    /// The path is given back as it was, and the chain only grows: what it
    /// held stays at its front.
    fn build_focus_chain_recursive(&self, _current_path: &mut Vec<usize>, _chain: &mut Vec<WidgetId>)
        ensures
            final(_current_path)@ == old(_current_path)@,
            old(_chain)@.len() <= final(_chain)@.len(),
            final(_chain)@.take(old(_chain)@.len() as int) == old(_chain)@,
    {
    }

    /// Updates the focus of the parts of this widget, found at `current_path`,
    /// given the focused identifier (containers only; nothing by default).
    fn update_focus_states_recursive(&mut self, _current_path: &[usize], _focus_id: Option<WidgetId>) {
    }
}

/// A widget that only draws and has a size; it handles no events and takes no
/// focus.
pub trait SimpleWidget<M> {
    /// The size constraints of the widget.
    fn constraints(&self) -> Constraints;
}

} // verus!
