//! Plain text pieces and wrappers: paragraphs and texts held as lines, a boxed
//! widget with its border characters, and a division holding any widget.

use vstd::prelude::*;
use crate::event::Widget;
use crate::style::{border_chars_spec, BorderChars, BorderStyle};
use crate::text::{lines, text_lines};

verus! {

/// The views of a sequence of strings.
pub open spec fn views(v: Seq<String>) -> Seq<Seq<char>> {
    v.map_values(|s: String| s@)
}

/// A paragraph: the lines of a text.
pub struct Paragraph {
    pub text: Vec<String>,
}

impl Paragraph {
    /// The paragraph of the lines of `text` (see `lines`).
    pub fn new(text: &str) -> (p: Self)
        ensures
            views(p.text@) == lines(text@),
    {
        let v = text_lines(text);
        proof {
            assert(views(v@) =~= lines(text@));
        }
        Paragraph { text: v }
    }
}

/// A text that remembers whether it changed since it was last looked at.
pub struct Text {
    text: Vec<String>,
    updated: bool,
}

impl Text {
    pub closed spec fn shown(&self) -> Seq<Seq<char>> {
        views(self.text@)
    }

    pub closed spec fn is_updated(&self) -> bool {
        self.updated
    }

    /// A text of the lines of `text`, marked as changed.
    pub fn new(text: &str) -> (t: Self)
        ensures
            t.shown() == lines(text@),
            t.is_updated(),
    {
        let v = text_lines(text);
        proof {
            assert(views(v@) =~= lines(text@));
        }
        Text { text: v, updated: true }
    }

    /// Replaces the lines by those of `text` and marks the text as changed.
    pub fn replace(&mut self, text: &str)
        ensures
            final(self).shown() == lines(text@),
            final(self).is_updated(),
    {
        let v = text_lines(text);
        proof {
            assert(views(v@) =~= lines(text@));
        }
        self.text = v;
        self.updated = true;
    }

    /// Whether the text changed since the last call; the mark is then cleared.
    pub fn update(&mut self) -> (changed: bool)
        ensures
            changed == old(self).is_updated(),
            !final(self).is_updated(),
            final(self).shown() == old(self).shown(),
    {
        let changed = self.updated;
        self.updated = false;
        changed
    }

    /// The lines, in order.
    pub fn lines(&self) -> (v: &Vec<String>)
        ensures
            views(v@) == self.shown(),
    {
        &self.text
    }
}

/// A widget drawn inside a border.
pub struct Boxed<T> {
    inner: T,
    border: BorderChars,
}

impl<T> Boxed<T> {
    pub closed spec fn content(&self) -> T {
        self.inner
    }

    pub closed spec fn frame(&self) -> BorderChars {
        self.border
    }

    /// `inner` inside a single-line border.
    pub fn new(inner: T) -> (b: Self)
        ensures
            b.content() == inner,
            b.frame() == border_chars_spec(BorderStyle::Single),
    {
        Boxed { inner, border: BorderStyle::Single.chars() }
    }

    pub fn set_border(&mut self, border: BorderChars)
        ensures
            final(self).frame() == border,
            final(self).content() == old(self).content(),
    {
        self.border = border;
    }

    pub fn get_border(&self) -> (b: &BorderChars)
        ensures
            *b == self.frame(),
    {
        &self.border
    }

    /// The wrapped widget.
    pub fn inner(&self) -> (t: &T)
        ensures
            *t == self.content(),
    {
        &self.inner
    }
}

/// A division: a box holding any widget.
#[verifier::reject_recursive_types(M)]
pub struct Div<M> {
    pub thing: Box<dyn Widget<M>>,
}

impl<M> Div<M> {
    /// A division holding `thing`.
    pub fn new<W: Widget<M> + 'static>(thing: W) -> Self {
        let b: Box<dyn Widget<M>> = Box::new(thing);
        Div { thing: b }
    }
}

} // verus!
