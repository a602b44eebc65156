//! A label: a line of styled text.

use vstd::prelude::*;
use std::marker::PhantomData;
use crate::event::{Event, EventResult, Widget};
use crate::layout::{Constraints, ConstraintsView};
use crate::style::{make_style, style_with_flag, styled, Color, Style, BOLD_BIT, ITALIC_BIT, UNDERLINED_BIT};
use crate::text::owned;
use crate::width::{str_width, text_width};

verus! {

/// A line of text.
#[derive(Debug)]
pub struct Label<M = ()> {
    content: String,
    style: Style,
    wrap: bool,
    _marker: PhantomData<M>,
}

impl<M> Label<M> {
    pub closed spec fn text(&self) -> Seq<char> {
        self.content@
    }

    pub closed spec fn look(&self) -> Style {
        self.style
    }

    pub closed spec fn wraps(&self) -> bool {
        self.wrap
    }

    /// A label of `content` with no style, not wrapping.
    pub fn new(content: &str) -> (l: Self)
        ensures
            l.text() == content@,
            l.look() == styled(None, None, false),
            !l.wraps(),
    {
        Label { content: owned(content), style: make_style(None, None, false), wrap: false, _marker: PhantomData }
    }

    pub fn style(self, style: Style) -> (l: Self)
        ensures
            l.look() == style,
            l.text() == self.text() && l.wraps() == self.wraps(),
    {
        Label { style, ..self }
    }

    /// Sets whether the text wraps (it is kept; lines are not wrapped yet).
    pub fn wrap(self, wrap: bool) -> (l: Self)
        ensures
            l.wraps() == wrap,
            l.text() == self.text() && l.look() == self.look(),
    {
        Label { wrap, ..self }
    }

    pub fn content(&self) -> (r: &str)
        ensures
            r@ == self.text(),
    {
        self.content.as_str()
    }

    pub fn fg(self, color: Color) -> (l: Self)
        ensures
            l.look() == (Style { fg_color: Some(color), ..self.look() }),
            l.text() == self.text() && l.wraps() == self.wraps(),
    {
        Label { style: self.style.fg(color), ..self }
    }

    pub fn bg(self, color: Color) -> (l: Self)
        ensures
            l.look() == (Style { bg_color: Some(color), ..self.look() }),
            l.text() == self.text() && l.wraps() == self.wraps(),
    {
        Label { style: self.style.bg(color), ..self }
    }

    pub fn bold(self) -> (l: Self)
        ensures
            l.look() == style_with_flag(self.look(), BOLD_BIT),
            l.text() == self.text() && l.wraps() == self.wraps(),
    {
        Label { style: self.style.bold(), ..self }
    }

    pub fn italic(self) -> (l: Self)
        ensures
            l.look() == style_with_flag(self.look(), ITALIC_BIT),
            l.text() == self.text() && l.wraps() == self.wraps(),
    {
        Label { style: self.style.italic(), ..self }
    }

    pub fn underline(self) -> (l: Self)
        ensures
            l.look() == style_with_flag(self.look(), UNDERLINED_BIT),
            l.text() == self.text() && l.wraps() == self.wraps(),
    {
        Label { style: self.style.underlined(), ..self }
    }
}

impl<M> Clone for Label<M> {
    fn clone(&self) -> (l: Self)
        ensures
            l.text() == self.text() && l.look() == self.look() && l.wraps() == self.wraps(),
    {
        Label { content: owned(self.content.as_str()), style: self.style, wrap: self.wrap, _marker: PhantomData }
    }
}

impl<M> Widget<M> for Label<M> {
    /// One line as wide as the text.
    open spec fn sized_as(&self, c: Constraints) -> bool {
        c@ == (ConstraintsView {
            min_width: (text_width(self.text()) % 0x10000) as u16,
            max_width: Some((text_width(self.text()) % 0x10000) as u16),
            min_height: 1,
            max_height: Some(1),
            flex: None,
        })
    }

    /// It takes no focus.
    fn focusable(&self) -> (r: bool) {
        false
    }

    /// It is never focused.
    fn is_focused(&self) -> (r: bool) {
        false
    }

    /// It keeps no focus flag.
    fn set_focused(&mut self, _focused: bool) {
    }

    /// A label ignores every event.
    open spec fn passes_over(&self, event: Event) -> bool {
        true
    }

    /// A label handles no event.
    fn handle_event(&mut self, _event: &Event) -> (r: EventResult<M>)
        ensures
            r is Ignored,
            *final(self) == *old(self),
            final(self).text() == old(self).text() && final(self).look() == old(self).look(),
            final(self).wraps() == old(self).wraps(),
    {
        EventResult::Ignored
    }

    /// One row, as wide as the text (modulo 2^16).
    fn constraints(&self) -> (c: Constraints)
        ensures
            c@ == (ConstraintsView {
                min_width: (text_width(self.text()) % 0x10000) as u16,
                max_width: Some((text_width(self.text()) % 0x10000) as u16),
                min_height: 1,
                max_height: Some(1),
                flex: None,
            }),
    {
        let width = (str_width(self.content.as_str()) % 0x10000) as u16;
        Constraints { min_width: width, max_width: Some(width), min_height: 1, max_height: Some(1), flex: None }
    }
}

/// A new label of `content`.
pub fn label<M>(content: &str) -> (l: Label<M>)
    ensures
        l.text() == content@,
        l.look() == styled(None, None, false),
        !l.wraps(),
{
    Label::new(content)
}

} // verus!
