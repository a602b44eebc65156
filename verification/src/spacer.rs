//! A widget that only takes up space.

use vstd::prelude::*;
use std::marker::PhantomData;
use crate::event::{Event, EventResult, Widget};
use crate::layout::{content_view, fill_view, fixed_view, min_view, Constraints, ConstraintsView, Flex};

verus! {

/// Occupies space in a layout and draws nothing.
#[derive(Debug)]
pub struct Spacer<M = ()> {
    constraints: Constraints,
    _marker: PhantomData<M>,
}

impl<M> Spacer<M> {
    /// The size constraints this spacer reports.
    pub closed spec fn bounds(&self) -> Constraints {
        self.constraints
    }

    /// A spacer sized to content, that is of no size.
    pub fn new() -> (s: Self)
        ensures
            s.bounds()@ == content_view(),
    {
        Spacer { constraints: Constraints::content(), _marker: PhantomData }
    }

    /// Exactly `width` columns by `height` rows.
    pub fn fixed(self, width: u16, height: u16) -> (s: Self)
        ensures
            s.bounds()@ == fixed_view(width, height),
    {
        Spacer { constraints: Constraints::fixed(width, height), _marker: PhantomData }
    }

    /// At least `width` columns by `height` rows.
    pub fn min(self, width: u16, height: u16) -> (s: Self)
        ensures
            s.bounds()@ == min_view(width, height),
    {
        Spacer { constraints: Constraints::min(width, height), _marker: PhantomData }
    }

    /// Fixes the width; the rest is kept.
    pub fn width(self, width: u16) -> (s: Self)
        ensures
            s.bounds()@ == (ConstraintsView {
                min_width: width,
                max_width: Some(width),
                ..self.bounds()@
            }),
    {
        let mut c = self.constraints;
        c.min_width = width;
        c.max_width = Some(width);
        Spacer { constraints: c, _marker: PhantomData }
    }

    /// Fixes the height; the rest is kept.
    pub fn height(self, height: u16) -> (s: Self)
        ensures
            s.bounds()@ == (ConstraintsView {
                min_height: height,
                max_height: Some(height),
                ..self.bounds()@
            }),
    {
        let mut c = self.constraints;
        c.min_height = height;
        c.max_height = Some(height);
        Spacer { constraints: c, _marker: PhantomData }
    }

    /// Grows with the given flex factor; the bounds are kept.
    pub fn flex(self, flex: Flex) -> (s: Self)
        ensures
            s.bounds()@ == (ConstraintsView { flex: Some(flex@), ..self.bounds()@ }),
    {
        let mut c = self.constraints;
        c.flex = Some(flex);
        Spacer { constraints: c, _marker: PhantomData }
    }

    /// Fills all the space available (flex one, no bounds).
    pub fn fill(self) -> (s: Self)
        ensures
            s.bounds()@ == fill_view(),
    {
        Spacer { constraints: Constraints::fill(), _marker: PhantomData }
    }
}

impl<M> Clone for Spacer<M> {
    fn clone(&self) -> (s: Self)
        ensures
            s.bounds() == self.bounds(),
    {
        Spacer { constraints: self.constraints.copy(), _marker: PhantomData }
    }
}

impl<M> Widget<M> for Spacer<M> {
    /// The bounds set on the spacer.
    open spec fn sized_as(&self, c: Constraints) -> bool {
        c == self.bounds()
    }

    /// It takes no focus.
    fn focusable(&self) -> (r: bool) {
        false
    }

    /// It is never focused.
    fn is_focused(&self) -> (r: bool) {
        false
    }

    /// It keeps no focus flag.
    fn set_focused(&mut self, _focused: bool) {
    }

    /// A spacer ignores every event.
    open spec fn passes_over(&self, event: Event) -> bool {
        true
    }

    /// A spacer handles no event.
    fn handle_event(&mut self, _event: &Event) -> (r: EventResult<M>)
        ensures
            r is Ignored,
            *final(self) == *old(self),
    {
        EventResult::Ignored
    }

    fn constraints(&self) -> (c: Constraints)
        ensures
            c == self.bounds(),
    {
        self.constraints.copy()
    }
}

/// A new spacer (of no size).
pub fn spacer<M>() -> (s: Spacer<M>)
    ensures
        s.bounds()@ == content_view(),
{
    Spacer::new()
}

} // verus!
