//! One type for the widgets a container holds side by side.

use vstd::prelude::*;
use crate::button::{button_handled, button_size, Button};
use crate::checkbox::{boxed_label_width, checkbox_handled, Checkbox};
use crate::event::{Event, EventResult, Widget};
use crate::keyboard::{controller_message, handler_gives, KeyboardController};
use crate::label::Label;
use crate::layout::{fixed_view, Constraints, ConstraintsView};
use crate::spacer::Spacer;
use crate::text_input::{input_handled, TextInput};
use crate::width::text_width;

verus! {

/// A widget of one of the kinds a container holds.
#[verifier::reject_recursive_types(M)]
pub enum AnyWidget<M = ()> {
    Label(Label<M>),
    Spacer(Spacer<M>),
    Button(Button<M>),
    KeyboardController(KeyboardController<M>),
    TextInput(TextInput<M>),
    Checkbox(Checkbox<M>),
}

/// The messages of a result: none when ignored.
pub open spec fn messages_of<M>(r: EventResult<M>) -> Seq<M> {
    match r {
        EventResult::Consumed(v) => v@,
        EventResult::Ignored => Seq::empty(),
    }
}

/// The constraints each kind of widget gives.
pub open spec fn natural_constraints<M>(w: AnyWidget<M>) -> ConstraintsView {
    match w {
        AnyWidget::Label(l) => {
            let tw = (text_width(l.text()) % 0x10000) as u16;
            ConstraintsView { min_width: tw, max_width: Some(tw), min_height: 1, max_height: Some(1), flex: None }
        },
        AnyWidget::Spacer(s) => s.bounds()@,
        AnyWidget::Button(b) => {
            let (bw, bh) = button_size(b.look(), b.label_width());
            ConstraintsView { min_width: bw, max_width: Some(bw), min_height: bh, max_height: Some(bh), flex: None }
        },
        AnyWidget::KeyboardController(_) => fixed_view(0, 0),
        AnyWidget::TextInput(_) => ConstraintsView {
            min_width: 20,
            max_width: None,
            min_height: 3,
            max_height: Some(3),
            flex: None,
        },
        AnyWidget::Checkbox(c) => {
            let cw = boxed_label_width(c.label_width());
            ConstraintsView { min_width: cw, max_width: Some(cw), min_height: 1, max_height: Some(1), flex: None }
        },
    }
}

/// The same kind of widget.
pub open spec fn same_kind<M>(a: AnyWidget<M>, b: AnyWidget<M>) -> bool {
    match (a, b) {
        (AnyWidget::Label(_), AnyWidget::Label(_)) => true,
        (AnyWidget::Spacer(_), AnyWidget::Spacer(_)) => true,
        (AnyWidget::Button(_), AnyWidget::Button(_)) => true,
        (AnyWidget::KeyboardController(_), AnyWidget::KeyboardController(_)) => true,
        (AnyWidget::TextInput(_), AnyWidget::TextInput(_)) => true,
        (AnyWidget::Checkbox(_), AnyWidget::Checkbox(_)) => true,
        _ => false,
    }
}

/// Copies of the messages, in order.
fn copy_messages<M: Clone>(m: &[M]) -> (v: Vec<M>)
    ensures
        v@.len() == m@.len(),
        forall|i: int| 0 <= i < m@.len() ==> cloned(m@[i], #[trigger] v@[i]),
{
    let mut v: Vec<M> = Vec::new();
    let mut i: usize = 0;
    while i < m.len()
        invariant
            i <= m@.len(),
            v@.len() == i,
            forall|k: int| 0 <= k < i ==> cloned(m@[k], #[trigger] v@[k]),
        decreases m@.len() - i,
    {
        v.push(m[i].clone());
        i = i + 1;
    }
    v
}

impl<M: Clone> AnyWidget<M> {
    /// The constraints of the widget held (see `natural_constraints`).
    pub fn constraints(&self) -> (c: Constraints)
        ensures
            c@ == natural_constraints(*self),
    {
        match self {
            AnyWidget::Label(w) => w.constraints(),
            AnyWidget::Spacer(w) => w.constraints(),
            AnyWidget::Button(w) => w.constraints(),
            AnyWidget::KeyboardController(w) => w.constraints(),
            AnyWidget::TextInput(w) => w.constraints(),
            AnyWidget::Checkbox(w) => w.constraints(),
        }
    }

    /// Hands `event` to the widget held. A label or spacer gives an ignored
    /// result and no messages; the others give their result and copies of its
    /// messages.
    pub fn handle_event_with_messages(&mut self, event: &Event) -> (r: (EventResult<M>, Vec<M>))
        ensures
            same_kind(*old(self), *final(self)),
            (*old(self) is Label || *old(self) is Spacer) ==> r.0 is Ignored && r.1@.len() == 0 && *final(self)
                == *old(self),
            r.1@.len() == messages_of(r.0).len(),
            forall|i: int| 0 <= i < r.1@.len() ==> cloned(messages_of(r.0)[i], #[trigger] r.1@[i]),
            match *old(self) {
                AnyWidget::Button(a) => *final(self) matches AnyWidget::Button(b) && button_handled(a, b, *event, r.0),
                AnyWidget::TextInput(a) => *final(self) matches AnyWidget::TextInput(b) && input_handled(a, b, *event, r.0),
                AnyWidget::Checkbox(a) => *final(self) matches AnyWidget::Checkbox(b) && checkbox_handled(a, b, *event, r.0),
                AnyWidget::KeyboardController(a) => *final(self) == *old(self) && match controller_message(
                    a.up(),
                    a.down(),
                    a.handlers(),
                    *event,
                ) {
                    Some(h) => r.0 matches EventResult::Consumed(v) && v@.len() == 1 && handler_gives(h, v@[0]),
                    None => r.0 is Ignored,
                },
                _ => true,
            },
    {
        match self {
            AnyWidget::Label(w) => {
                let _ = w.handle_event(event);
                (EventResult::Ignored, Vec::new())
            },
            AnyWidget::Spacer(w) => {
                let _ = w.handle_event(event);
                (EventResult::Ignored, Vec::new())
            },
            AnyWidget::Button(w) => {
                let result = w.handle_event(event);
                let messages = copy_messages(result.messages_ref());
                (result, messages)
            },
            AnyWidget::KeyboardController(w) => {
                let result = w.handle_event(event);
                let messages = copy_messages(result.messages_ref());
                (result, messages)
            },
            AnyWidget::TextInput(w) => {
                let result = w.handle_event(event);
                let messages = copy_messages(result.messages_ref());
                (result, messages)
            },
            AnyWidget::Checkbox(w) => {
                let result = w.handle_event(event);
                let messages = copy_messages(result.messages_ref());
                (result, messages)
            },
        }
    }
}

impl<M> From<Label<M>> for AnyWidget<M> {
    fn from(w: Label<M>) -> Self {
        AnyWidget::Label(w)
    }
}

impl<M> vstd::std_specs::convert::FromSpecImpl<Label<M>> for AnyWidget<M> {
    open spec fn obeys_from_spec() -> bool {
        true
    }

    open spec fn from_spec(w: Label<M>) -> Self {
        AnyWidget::Label(w)
    }
}

impl<M> From<Spacer<M>> for AnyWidget<M> {
    fn from(w: Spacer<M>) -> Self {
        AnyWidget::Spacer(w)
    }
}

impl<M> vstd::std_specs::convert::FromSpecImpl<Spacer<M>> for AnyWidget<M> {
    open spec fn obeys_from_spec() -> bool {
        true
    }

    open spec fn from_spec(w: Spacer<M>) -> Self {
        AnyWidget::Spacer(w)
    }
}

impl<M> From<Button<M>> for AnyWidget<M> {
    fn from(w: Button<M>) -> Self {
        AnyWidget::Button(w)
    }
}

impl<M> vstd::std_specs::convert::FromSpecImpl<Button<M>> for AnyWidget<M> {
    open spec fn obeys_from_spec() -> bool {
        true
    }

    open spec fn from_spec(w: Button<M>) -> Self {
        AnyWidget::Button(w)
    }
}

impl<M> From<KeyboardController<M>> for AnyWidget<M> {
    fn from(w: KeyboardController<M>) -> Self {
        AnyWidget::KeyboardController(w)
    }
}

impl<M> vstd::std_specs::convert::FromSpecImpl<KeyboardController<M>> for AnyWidget<M> {
    open spec fn obeys_from_spec() -> bool {
        true
    }

    open spec fn from_spec(w: KeyboardController<M>) -> Self {
        AnyWidget::KeyboardController(w)
    }
}

impl<M> From<TextInput<M>> for AnyWidget<M> {
    fn from(w: TextInput<M>) -> Self {
        AnyWidget::TextInput(w)
    }
}

impl<M> vstd::std_specs::convert::FromSpecImpl<TextInput<M>> for AnyWidget<M> {
    open spec fn obeys_from_spec() -> bool {
        true
    }

    open spec fn from_spec(w: TextInput<M>) -> Self {
        AnyWidget::TextInput(w)
    }
}

impl<M> From<Checkbox<M>> for AnyWidget<M> {
    fn from(w: Checkbox<M>) -> Self {
        AnyWidget::Checkbox(w)
    }
}

impl<M> vstd::std_specs::convert::FromSpecImpl<Checkbox<M>> for AnyWidget<M> {
    open spec fn obeys_from_spec() -> bool {
        true
    }

    open spec fn from_spec(w: Checkbox<M>) -> Self {
        AnyWidget::Checkbox(w)
    }
}

} // verus!
