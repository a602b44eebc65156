//! A wrapper that adds mouse handling (click, hover, press, release, drag) to a
//! widget.

use vstd::prelude::*;
use crate::event::{Event, EventResult, MouseButton, MouseEvent, MouseEventKind, Widget};
use crate::geometry::Rect;
use crate::handler::{handler_ready, Handler};
use crate::layout::Constraints;
use crate::widget_id::WidgetId;

verus! {

/// Mouse interaction state.
#[derive(Debug, Clone, Copy)]
pub struct MouseState {
    /// The mouse is over the widget.
    pub hovering: bool,
    /// The left button went down on the widget and is not released yet.
    pub pressed: bool,
    /// Where the left button went down.
    pub press_pos: Option<(u16, u16)>,
}

/// Which handler an event fired.
pub enum Fired {
    Hover,
    Press,
    Release,
    Click,
    Drag,
}

/// Whether `(x, y)` lies in `area`.
pub open spec fn inside(area: Rect, x: u16, y: u16) -> bool {
    x >= area.x && x < area.x + area.width && y >= area.y && y < area.y + area.height
}

/// Whether the hit test can add the area's coordinates without overflow.
pub open spec fn hit_test_ok(area: Rect, x: u16, y: u16) -> bool {
    &&& x >= area.x ==> area.x + area.width <= u16::MAX
    &&& (x >= area.x && x < area.x + area.width && y >= area.y) ==> area.y + area.height
        <= u16::MAX
}

/// A coordinate read as a signed 16-bit value.
pub open spec fn signed16(v: u16) -> int {
    if v < 0x8000 {
        v as int
    } else {
        v - 0x10000
    }
}

/// Whether the signed distance of two coordinates fits 16 bits.
pub open spec fn distance_ok(a: u16, b: u16) -> bool {
    -0x7FFF <= signed16(a) - signed16(b) <= 0x7FFF
}

/// Whether two positions are at most one cell apart in each direction.
pub open spec fn near(a: (u16, u16), b: (u16, u16)) -> bool {
    -1 <= signed16(a.0) - signed16(b.0) <= 1 && -1 <= signed16(a.1) - signed16(b.1) <= 1
}

/// Whether handling `ev` in state `st` computes only distances that fit.
pub open spec fn click_ok(st: MouseState, area: Rect, ev: MouseEvent) -> bool {
    (ev.kind == MouseEventKind::Up(MouseButton::Left) && inside(area, ev.column, ev.row)
        && st.pressed && st.press_pos.is_some()) ==> distance_ok(ev.column, st.press_pos.unwrap().0)
        && distance_ok(ev.row, st.press_pos.unwrap().1)
}

/// The state after a mouse event inside or outside the area.
pub open spec fn next_state(st: MouseState, area: Rect, ev: MouseEvent) -> MouseState {
    let hit = inside(area, ev.column, ev.row);
    match ev.kind {
        MouseEventKind::Moved => MouseState { hovering: hit, ..st },
        MouseEventKind::Down(MouseButton::Left) => if hit {
            MouseState { pressed: true, press_pos: Some((ev.column, ev.row)), ..st }
        } else {
            st
        },
        MouseEventKind::Up(MouseButton::Left) => MouseState { pressed: false, press_pos: None, ..st },
        _ => st,
    }
}

/// Which handlers a mouse event fires, in order (given which handlers exist).
pub open spec fn fired(
    st: MouseState,
    area: Rect,
    ev: MouseEvent,
    has_hover: bool,
    has_press: bool,
    has_release: bool,
    has_click: bool,
    has_drag: bool,
) -> Seq<Fired> {
    let hit = inside(area, ev.column, ev.row);
    match ev.kind {
        MouseEventKind::Moved => if hit && !st.hovering && has_hover {
            seq![Fired::Hover]
        } else {
            seq![]
        },
        MouseEventKind::Down(MouseButton::Left) => if hit && has_press {
            seq![Fired::Press]
        } else {
            seq![]
        },
        MouseEventKind::Up(MouseButton::Left) => {
            let release = if hit && has_release {
                seq![Fired::Release]
            } else {
                seq![]
            };
            let click = if hit && st.pressed && st.press_pos.is_some() && near(
                (ev.column, ev.row),
                st.press_pos.unwrap(),
            ) && has_click {
                seq![Fired::Click]
            } else {
                seq![]
            };
            release + click
        },
        MouseEventKind::Drag(MouseButton::Left) => if hit && st.pressed && has_drag {
            seq![Fired::Drag]
        } else {
            seq![]
        },
        _ => seq![],
    }
}

/// A callback that takes nothing and gives a message.
pub type Callback<M> = Box<dyn Handler<(), M>>;

/// The callbacks of an interactive wrapper, each ready to be called.
#[verifier::reject_recursive_types(M)]
struct MouseCallbacks<M> {
    on_click: Option<Callback<M>>,
    on_hover: Option<Callback<M>>,
    on_press: Option<Callback<M>>,
    on_release: Option<Callback<M>>,
    on_drag: Option<Callback<M>>,
}

impl<M> MouseCallbacks<M> {
    #[verifier::type_invariant]
    spec fn inv(&self) -> bool {
        &&& handler_ready(self.on_click)
        &&& handler_ready(self.on_hover)
        &&& handler_ready(self.on_press)
        &&& handler_ready(self.on_release)
        &&& handler_ready(self.on_drag)
    }
}

/// The callback of a fired handler, among (click, hover, press, release,
/// drag).
pub open spec fn callback_of<M>(cbs: (Option<Callback<M>>, Option<Callback<M>>, Option<Callback<M>>, Option<Callback<M>>, Option<Callback<M>>), f: Fired) -> Option<Callback<M>> {
    match f {
        Fired::Click => cbs.0,
        Fired::Hover => cbs.1,
        Fired::Press => cbs.2,
        Fired::Release => cbs.3,
        Fired::Drag => cbs.4,
    }
}

/// What a mouse event over `area` gives, from the mouse state and callbacks
/// `part` (`after` the new mouse state, `r` the result): the state moves on as
/// `next_state` says; the messages of the handlers it fires, in order, make a
/// consumed result; with none, an event inside the area is consumed with no
/// message and one outside is ignored.
pub open spec fn mouse_outcome_of<M>(
    part: (MouseState, Option<Callback<M>>, Option<Callback<M>>, Option<Callback<M>>, Option<Callback<M>>, Option<Callback<M>>),
    area: Rect,
    ev: MouseEvent,
    after: MouseState,
    r: EventResult<M>,
) -> bool {
    let cbs = (part.1, part.2, part.3, part.4, part.5);
    let fs = fired(part.0, area, ev, part.2.is_some(), part.3.is_some(), part.4.is_some(), part.1.is_some(), part.5.is_some());
    &&& after == next_state(part.0, area, ev)
    &&& if fs.len() > 0 {
        r matches EventResult::Consumed(v) && v@.len() == fs.len() && forall|i: int|
            0 <= i < fs.len() ==> #[trigger] callback_of(cbs, fs[i]) is Some && callback_of(cbs, fs[i]).unwrap().gives((), v@[i])
    } else if inside(area, ev.column, ev.row) {
        r matches EventResult::Consumed(v) && v@.len() == 0
    } else {
        r is Ignored
    }
}

/// Interactive wrapper: adds mouse event handling to a widget. Each callback
/// is called every time it fires.
#[verifier::reject_recursive_types(M)]
pub struct Interactive<M, W> {
    inner: W,
    cached_area: Option<Rect>,
    callbacks: MouseCallbacks<M>,
    state: MouseState,
}

impl<M, W> Interactive<M, W> {
    pub closed spec fn wrapped(&self) -> W {
        self.inner
    }

    pub closed spec fn area(&self) -> Option<Rect> {
        self.cached_area
    }

    pub closed spec fn mouse(&self) -> MouseState {
        self.state
    }

    pub closed spec fn click(&self) -> Option<Callback<M>> {
        self.callbacks.on_click
    }

    pub closed spec fn hover(&self) -> Option<Callback<M>> {
        self.callbacks.on_hover
    }

    pub closed spec fn press(&self) -> Option<Callback<M>> {
        self.callbacks.on_press
    }

    pub closed spec fn release(&self) -> Option<Callback<M>> {
        self.callbacks.on_release
    }

    pub closed spec fn drag(&self) -> Option<Callback<M>> {
        self.callbacks.on_drag
    }

    /// The callback of a fired handler.
    pub open spec fn message_of(&self, f: Fired) -> Option<Callback<M>> {
        match f {
            Fired::Hover => self.hover(),
            Fired::Press => self.press(),
            Fired::Release => self.release(),
            Fired::Click => self.click(),
            Fired::Drag => self.drag(),
        }
    }

    /// The handlers that `ev` fires in the current state.
    pub open spec fn fired_by(&self, area: Rect, ev: MouseEvent) -> Seq<Fired> {
        fired(
            self.mouse(),
            area,
            ev,
            self.hover().is_some(),
            self.press().is_some(),
            self.release().is_some(),
            self.click().is_some(),
            self.drag().is_some(),
        )
    }

    /// The mouse state and the five callbacks (click, hover, press, release,
    /// drag).
    pub open spec fn mouse_part(&self) -> (MouseState, Option<Callback<M>>, Option<Callback<M>>, Option<Callback<M>>, Option<Callback<M>>, Option<Callback<M>>) {
        (self.mouse(), self.click(), self.hover(), self.press(), self.release(), self.drag())
    }

    /// What a mouse event over `area` gives (see `mouse_outcome_of`).
    pub open spec fn mouse_outcome(&self, area: Rect, ev: MouseEvent, after: MouseState, r: EventResult<M>) -> bool {
        mouse_outcome_of(self.mouse_part(), area, ev, after, r)
    }

    /// Everything but the mouse state and the cached area is as in `other`.
    pub open spec fn same_setup(&self, other: &Self) -> bool {
        &&& self.wrapped() == other.wrapped()
        &&& self.click() == other.click()
        &&& self.hover() == other.hover()
        &&& self.press() == other.press()
        &&& self.release() == other.release()
        &&& self.drag() == other.drag()
    }

    /// A wrapper with no handlers, no area yet, and the mouse away.
    pub fn new(inner: W) -> (r: Self)
        ensures
            r.wrapped() == inner,
            r.area().is_none(),
            r.mouse() == (MouseState { hovering: false, pressed: false, press_pos: None }),
            r.click().is_none() && r.hover().is_none() && r.press().is_none()
                && r.release().is_none() && r.drag().is_none(),
    {
        Interactive {
            inner,
            cached_area: None,
            callbacks: MouseCallbacks { on_click: None, on_hover: None, on_press: None, on_release: None, on_drag: None },
            state: MouseState { hovering: false, pressed: false, press_pos: None },
        }
    }

    /// Sets the click handler (press and release within one cell).
    pub fn on_click<F>(self, handler: F) -> (r: Self) where F: Fn() -> M + 'static
        requires
            handler.requires(()),
        ensures
            r.click() is Some,
            forall|m: M| r.click().unwrap().gives((), m) == call_ensures(handler, (), m),
            r.hover() == self.hover() && r.press() == self.press() && r.release() == self.release()
                && r.drag() == self.drag(),
            r.wrapped() == self.wrapped() && r.area() == self.area() && r.mouse() == self.mouse(),
    {
        proof { use_type_invariant(&self.callbacks); }
        let h: Callback<M> = Box::new(handler);
        let callbacks = MouseCallbacks { on_click: Some(h), ..self.callbacks };
        Interactive { callbacks, ..self }
    }

    /// Sets the hover handler (mouse enters the area).
    pub fn on_hover<F>(self, handler: F) -> (r: Self) where F: Fn() -> M + 'static
        requires
            handler.requires(()),
        ensures
            r.hover() is Some,
            forall|m: M| r.hover().unwrap().gives((), m) == call_ensures(handler, (), m),
            r.click() == self.click() && r.press() == self.press() && r.release() == self.release()
                && r.drag() == self.drag(),
            r.wrapped() == self.wrapped() && r.area() == self.area() && r.mouse() == self.mouse(),
    {
        proof { use_type_invariant(&self.callbacks); }
        let h: Callback<M> = Box::new(handler);
        let callbacks = MouseCallbacks { on_hover: Some(h), ..self.callbacks };
        Interactive { callbacks, ..self }
    }

    /// Sets the press handler (left button down in the area).
    pub fn on_press<F>(self, handler: F) -> (r: Self) where F: Fn() -> M + 'static
        requires
            handler.requires(()),
        ensures
            r.press() is Some,
            forall|m: M| r.press().unwrap().gives((), m) == call_ensures(handler, (), m),
            r.click() == self.click() && r.hover() == self.hover() && r.release() == self.release()
                && r.drag() == self.drag(),
            r.wrapped() == self.wrapped() && r.area() == self.area() && r.mouse() == self.mouse(),
    {
        proof { use_type_invariant(&self.callbacks); }
        let h: Callback<M> = Box::new(handler);
        let callbacks = MouseCallbacks { on_press: Some(h), ..self.callbacks };
        Interactive { callbacks, ..self }
    }

    /// Sets the release handler (left button up in the area).
    pub fn on_release<F>(self, handler: F) -> (r: Self) where F: Fn() -> M + 'static
        requires
            handler.requires(()),
        ensures
            r.release() is Some,
            forall|m: M| r.release().unwrap().gives((), m) == call_ensures(handler, (), m),
            r.click() == self.click() && r.hover() == self.hover() && r.press() == self.press()
                && r.drag() == self.drag(),
            r.wrapped() == self.wrapped() && r.area() == self.area() && r.mouse() == self.mouse(),
    {
        proof { use_type_invariant(&self.callbacks); }
        let h: Callback<M> = Box::new(handler);
        let callbacks = MouseCallbacks { on_release: Some(h), ..self.callbacks };
        Interactive { callbacks, ..self }
    }

    /// Sets the drag handler (moves in the area with the left button down).
    pub fn on_drag<F>(self, handler: F) -> (r: Self) where F: Fn() -> M + 'static
        requires
            handler.requires(()),
        ensures
            r.drag() is Some,
            forall|m: M| r.drag().unwrap().gives((), m) == call_ensures(handler, (), m),
            r.click() == self.click() && r.hover() == self.hover() && r.press() == self.press()
                && r.release() == self.release(),
            r.wrapped() == self.wrapped() && r.area() == self.area() && r.mouse() == self.mouse(),
    {
        proof { use_type_invariant(&self.callbacks); }
        let h: Callback<M> = Box::new(handler);
        let callbacks = MouseCallbacks { on_drag: Some(h), ..self.callbacks };
        Interactive { callbacks, ..self }
    }

    /// The wrapped widget.
    pub fn inner(&self) -> (w: &W)
        ensures
            *w == self.wrapped(),
    {
        &self.inner
    }

    /// The wrapped widget, mutably.
    pub fn inner_mut(&mut self) -> (w: &mut W)
        ensures
            *w == old(self).wrapped(),
            final(self).wrapped() == *final(w),
            final(self).area() == old(self).area(),
            final(self).mouse() == old(self).mouse(),
            final(self).click() == old(self).click() && final(self).hover() == old(self).hover()
                && final(self).press() == old(self).press() && final(self).release() == old(self).release() && final(self).drag() == old(self).drag(),
    {
        &mut self.inner
    }

    /// Unwraps the widget.
    pub fn into_inner(self) -> (w: W)
        ensures
            w == self.wrapped(),
    {
        self.inner
    }

    /// Records the area the widget was drawn in, for hit testing.
    pub fn cache_area(&mut self, area: Rect)
        ensures
            final(self).area() == Some(area),
            final(self).mouse() == old(self).mouse(),
            final(self).same_setup(old(self)),
    {
        self.cached_area = Some(area);
    }

    fn push_message(&self, out: &mut Vec<M>, h: &Option<Callback<M>>)
        requires
            h.is_some(),
            handler_ready(*h),
        ensures
            final(out)@.len() == old(out)@.len() + 1,
            final(out)@.take(old(out)@.len() as int) == old(out)@,
            h.unwrap().gives((), final(out)@.last()),
    {
        match h {
            Some(f) => {
                let m = f.call(());
                out.push(m);
                proof {
                    assert(out@.take(out@.len() - 1) =~= old(out)@);
                }
            },
            None => {},
        }
    }

    /// Handles a mouse event: updates hover and press state and produces the
    /// messages of the handlers it fires. Without an area (never drawn) the event
    /// is ignored. The event is consumed when a handler fired or the mouse is in
    /// the area.
    pub fn handle_mouse_event(&mut self, mouse_event: &MouseEvent) -> (r: EventResult<M>)

        requires
            old(self).area() matches Some(a) ==> hit_test_ok(a, mouse_event.column, mouse_event.row)
                && click_ok(old(self).mouse(), a, *mouse_event),
        ensures
            final(self).same_setup(old(self)),
            final(self).area() == old(self).area(),
            match old(self).area() {
                None => r is Ignored && final(self).mouse() == old(self).mouse(),
                Some(a) => old(self).mouse_outcome(a, *mouse_event, final(self).mouse(), r),
            },
    {
        proof { use_type_invariant(&self.callbacks); }
        let area = match self.cached_area {
            Some(a) => a,
            None => {
                return EventResult::Ignored;
            },
        };
        let mouse_x = mouse_event.column;
        let mouse_y = mouse_event.row;
        let is_inside = mouse_x >= area.x && mouse_x < area.x + area.width && mouse_y >= area.y
            && mouse_y < area.y + area.height;
        let mut state = self.state;
        let mut messages: Vec<M> = Vec::new();
        let ghost fs = self.fired_by(area, *mouse_event);
        match mouse_event.kind {
            MouseEventKind::Moved => {
                if is_inside {
                    if !state.hovering {
                        state.hovering = true;
                        if self.callbacks.on_hover.is_some() {
                            self.push_message(&mut messages, &self.callbacks.on_hover);
                        }
                    }
                } else {
                    if state.hovering {
                        state.hovering = false;
                    }
                }
            },
            MouseEventKind::Down(MouseButton::Left) => {
                if is_inside {
                    state.pressed = true;
                    state.press_pos = Some((mouse_x, mouse_y));
                    if self.callbacks.on_press.is_some() {
                        self.push_message(&mut messages, &self.callbacks.on_press);
                    }
                }
            },
            MouseEventKind::Up(MouseButton::Left) => {
                if is_inside {
                    if self.callbacks.on_release.is_some() {
                        self.push_message(&mut messages, &self.callbacks.on_release);
                    }
                    let ghost before = messages@;
                    if state.pressed {
                        if let Some(press_pos) = state.press_pos {
                            let dx = abs_distance(mouse_x, press_pos.0);
                            let dy = abs_distance(mouse_y, press_pos.1);
                            if dx <= 1 && dy <= 1 {
                                if self.callbacks.on_click.is_some() {
                                    self.push_message(&mut messages, &self.callbacks.on_click);
                                }
                            }
                        }
                    }
                    proof {
                        if messages@.len() == before.len() + 1 {
                            assert(messages@[before.len() as int] == messages@.last());
                            if before.len() == 1 {
                                assert(messages@[0] == before[0]);
                            }
                        }
                    }
                }
                state.pressed = false;
                state.press_pos = None;
            },
            MouseEventKind::Drag(MouseButton::Left) => {
                if state.pressed && is_inside {
                    if self.callbacks.on_drag.is_some() {
                        self.push_message(&mut messages, &self.callbacks.on_drag);
                    }
                }
            },
            _ => {},
        }
        self.state = state;
        proof {
            assert(messages@.len() == fs.len());
        }
        if messages.len() > 0 {
            EventResult::Consumed(messages)
        } else if is_inside {
            EventResult::consumed()
        } else {
            EventResult::Ignored
        }
    }

    /// Whether handling `ev` stays within 16-bit coordinate arithmetic.
    pub fn mouse_event_fits(&self, ev: &MouseEvent) -> (b: bool)
        ensures
            b == (self.area() matches Some(a) ==> hit_test_ok(a, ev.column, ev.row) && click_ok(
                self.mouse(),
                a,
                *ev,
            )),
    {
        match self.cached_area {
            None => true,
            Some(area) => {
                let x = ev.column as u32;
                let y = ev.row as u32;
                let ax = area.x as u32;
                let ay = area.y as u32;
                let aw = area.width as u32;
                let ah = area.height as u32;
                if x >= ax && ax + aw > 0xFFFF {
                    return false;
                }
                if x >= ax && x < ax + aw && y >= ay && ay + ah > 0xFFFF {
                    return false;
                }
                let hit = x >= ax && x < ax + aw && y >= ay && y < ay + ah;
                if ev.kind == MouseEventKind::Up(MouseButton::Left) && hit && self.state.pressed {
                    if let Some(p) = self.state.press_pos {
                        return fits_distance(ev.column, p.0) && fits_distance(ev.row, p.1);
                    }
                }
                true
            },
        }
    }

    /// What follows the wrapped widget's own handling of an event: its result when
    /// it consumed the event; otherwise mouse handling for a mouse event, and
    /// nothing for other events.
    pub fn handle_event_after_inner(&mut self, inner_result: EventResult<M>, event: &Event) -> (r:
        EventResult<M>)
        requires
            (!(inner_result is Consumed) && event is Mouse && old(self).area() is Some) ==> ({
                let me = event->Mouse_0;
                let a = old(self).area().unwrap();
                hit_test_ok(a, me.column, me.row) && click_ok(old(self).mouse(), a, me)
            }),
        ensures
            final(self).same_setup(old(self)),
            final(self).area() == old(self).area(),
            inner_result is Consumed ==> r == inner_result && final(self).mouse() == old(self).mouse(),
            !(inner_result is Consumed) && !(event is Mouse) ==> r is Ignored && final(self).mouse()
                == old(self).mouse(),
            !(inner_result is Consumed) && event is Mouse && old(self).area() is None ==> r is Ignored
                && final(self).mouse() == old(self).mouse(),
            !(inner_result is Consumed) && event is Mouse && old(self).area() is Some ==> final(self).mouse() == next_state(old(self).mouse(), old(self).area().unwrap(), event->Mouse_0),
    {
        if inner_result.is_consumed() {
            return inner_result;
        }
        if let Event::Mouse(mouse_event) = event {
            let ghost mid = *self;
            proof {
                assert(mid.mouse_part() == old(self).mouse_part());
            }
            return self.handle_mouse_event(mouse_event);
        }
        EventResult::Ignored
    }
}

/// Whether the signed distance of two coordinates fits 16 bits.
pub(crate) fn fits_distance(a: u16, b: u16) -> (r: bool)
    ensures
        r == distance_ok(a, b),
{
    let sa: i32 = if a < 0x8000 {
        a as i32
    } else {
        a as i32 - 0x10000
    };
    let sb: i32 = if b < 0x8000 {
        b as i32
    } else {
        b as i32 - 0x10000
    };
    -0x7FFF <= sa - sb && sa - sb <= 0x7FFF
}

/// `|a - b|` of two coordinates read as signed 16-bit values.
pub(crate) fn abs_distance(a: u16, b: u16) -> (d: i32)
    requires
        distance_ok(a, b),
    ensures
        d == if signed16(a) >= signed16(b) {
            signed16(a) - signed16(b)
        } else {
            signed16(b) - signed16(a)
        },
{
    let sa: i32 = if a < 0x8000 {
        a as i32
    } else {
        a as i32 - 0x10000
    };
    let sb: i32 = if b < 0x8000 {
        b as i32
    } else {
        b as i32 - 0x10000
    };
    if sa >= sb {
        sa - sb
    } else {
        sb - sa
    }
}

impl<M, W: Widget<M>> Widget<M> for Interactive<M, W> {
    /// The wrapped widget's constraints.
    open spec fn sized_as(&self, c: Constraints) -> bool {
        self.wrapped().sized_as(c)
    }

    /// An event that the wrapped widget ignores and that is no mouse event over
    /// a drawn area.
    open spec fn passes_over(&self, event: Event) -> bool {
        self.wrapped().passes_over(event) && (!(event is Mouse) || self.area() is None)
    }

    /// The wrapped widget sees the event first; what it leaves goes to
    /// `handle_mouse_event` (mouse events whose arithmetic fits) or is ignored.
    /// An ignored event is one that neither took: for a mouse event over the
    /// drawn area, the mouse state still moves on as `next_state` says, no
    /// handler fired and the mouse was outside.
    fn handle_event(&mut self, event: &Event) -> (r: EventResult<M>)
        ensures
            final(self).area() == old(self).area(),
            final(self).click() == old(self).click() && final(self).hover() == old(self).hover()
                && final(self).press() == old(self).press() && final(self).release() == old(self).release()
                && final(self).drag() == old(self).drag(),
            (old(self).wrapped().passes_over(*event) && *event is Mouse) ==> ({
                let me = event->Mouse_0;
                match old(self).area() {
                    None => r is Ignored && final(self).mouse() == old(self).mouse(),
                    Some(a) => if hit_test_ok(a, me.column, me.row) && click_ok(old(self).mouse(), a, me) {
                        old(self).mouse_outcome(a, me, final(self).mouse(), r)
                    } else {
                        r is Ignored && final(self).mouse() == old(self).mouse()
                    },
                }
            }),
            (old(self).wrapped().passes_over(*event) && !(*event is Mouse)) ==> r is Ignored
                && final(self).mouse() == old(self).mouse(),
            r is Ignored ==> match *event {
                Event::Mouse(me) => match old(self).area() {
                    Some(a) => if hit_test_ok(a, me.column, me.row) && click_ok(old(self).mouse(), a, me) {
                        &&& final(self).mouse() == next_state(old(self).mouse(), a, me)
                        &&& old(self).fired_by(a, me).len() == 0
                        &&& !inside(a, me.column, me.row)
                    } else {
                        final(self).mouse() == old(self).mouse()
                    },
                    None => final(self).mouse() == old(self).mouse(),
                },
                _ => final(self).mouse() == old(self).mouse(),
            },
    {
        let inner_result = self.inner.handle_event(event);
        if inner_result.is_consumed() {
            return inner_result;
        }
        if let Event::Mouse(mouse_event) = event {
            // coordinates whose hit test or click distance would overflow are ignored
            if !self.mouse_event_fits(mouse_event) {
                return EventResult::Ignored;
            }
            let ghost mid = *self;
            proof {
                assert(mid.mouse_part() == old(self).mouse_part());
            }
            return self.handle_mouse_event(mouse_event);
        }
        EventResult::Ignored
    }

    /// Focus is the wrapped widget's.
    open spec fn can_focus(&self) -> bool {
        self.wrapped().can_focus()
    }

    open spec fn focus_flag(&self) -> bool {
        self.wrapped().focus_flag()
    }

    open spec fn keeps_focus(&self) -> bool {
        self.wrapped().keeps_focus()
    }

    /// The wrapped widget's constraints.
    fn constraints(&self) -> (c: Constraints)
        ensures
            call_ensures(W::constraints, (&self.wrapped(),), c),
    {
        self.inner.constraints()
    }

    /// Whether the wrapped widget takes focus.
    fn focusable(&self) -> (r: bool) {
        self.inner.focusable()
    }

    /// Whether the wrapped widget has focus.
    fn is_focused(&self) -> (r: bool) {
        self.inner.is_focused()
    }

    /// Passes the focus to the wrapped widget; the area, the mouse state and
    /// the callbacks stay as they were.
    fn set_focused(&mut self, focused: bool)
        ensures
            final(self).area() == old(self).area(),
            final(self).mouse() == old(self).mouse(),
            final(self).click() == old(self).click() && final(self).hover() == old(self).hover()
                && final(self).press() == old(self).press() && final(self).release() == old(self).release()
                && final(self).drag() == old(self).drag(),
    {
        self.inner.set_focused(focused);
    }

    fn build_focus_chain_recursive(&self, current_path: &mut Vec<usize>, chain: &mut Vec<WidgetId>) {
        self.inner.build_focus_chain_recursive(current_path, chain);
    }

    /// Passes the update to the wrapped widget; the area, the mouse state and
    /// the callbacks stay as they were.
    fn update_focus_states_recursive(&mut self, current_path: &[usize], focus_id: Option<WidgetId>)
        ensures
            final(self).area() == old(self).area(),
            final(self).mouse() == old(self).mouse(),
            final(self).click() == old(self).click() && final(self).hover() == old(self).hover()
                && final(self).press() == old(self).press() && final(self).release() == old(self).release()
                && final(self).drag() == old(self).drag(),
    {
        self.inner.update_focus_states_recursive(current_path, focus_id);
    }
}

/// Wraps a widget to handle mouse events.
pub fn interactive<M, W>(widget: W) -> (r: Interactive<M, W>)
    ensures
        r.wrapped() == widget,
        r.area().is_none(),
        r.mouse() == (MouseState { hovering: false, pressed: false, press_pos: None }),
        r.click().is_none() && r.hover().is_none() && r.press().is_none() && r.release().is_none()
            && r.drag().is_none(),
{
    Interactive::new(widget)
}

/// A left press inside the area followed by a left release inside it at most
/// a cell away (each way) fires the click handler, after the release handler
/// where there is one; a release elsewhere fires no click, and one outside the
/// area fires nothing; either way the release leaves nothing pressed.
pub proof fn law_press_release_click(
    st: MouseState,
    area: Rect,
    x: u16,
    y: u16,
    x2: u16,
    y2: u16,
    has_hover: bool,
    has_press: bool,
    has_release: bool,
    has_drag: bool,
)
    requires
        inside(area, x, y),
    ensures
        ({
            let down = MouseEvent { kind: MouseEventKind::Down(MouseButton::Left), column: x, row: y };
            let up = MouseEvent { kind: MouseEventKind::Up(MouseButton::Left), column: x2, row: y2 };
            let pressed = next_state(st, area, down);
            let fs = fired(pressed, area, up, has_hover, has_press, has_release, true, has_drag);
            &&& (inside(area, x2, y2) && near((x2, y2), (x, y))) ==> fs == if has_release {
                seq![Fired::Release, Fired::Click]
            } else {
                seq![Fired::Click]
            }
            &&& !(inside(area, x2, y2) && near((x2, y2), (x, y))) ==> !fs.contains(Fired::Click)
            &&& !inside(area, x2, y2) ==> fs.len() == 0
            &&& !next_state(pressed, area, up).pressed && next_state(pressed, area, up).press_pos is None
        }),
{
}

/// A wrapper whose only handler is a click handler, over a drawn area: after
/// a left press inside the area, a left release inside it at most a cell away
/// gives exactly one message, the click handler's; a release elsewhere in the
/// area gives none, and one outside the area is ignored. (Each step is what
/// `handle_event` states when the wrapped widget passes over mouse events.)
pub proof fn law_click_after_press<M, W>(
    w: Interactive<M, W>,
    area: Rect,
    x: u16,
    y: u16,
    x2: u16,
    y2: u16,
    after_press: MouseState,
    pressed: EventResult<M>,
    after_release: MouseState,
    released: EventResult<M>,
)
    requires
        w.click() is Some,
        w.hover() is None && w.press() is None && w.release() is None && w.drag() is None,
        inside(area, x, y),
        mouse_outcome_of(
            w.mouse_part(),
            area,
            MouseEvent { kind: MouseEventKind::Down(MouseButton::Left), column: x, row: y },
            after_press,
            pressed,
        ),
        mouse_outcome_of(
            (after_press, w.click(), w.hover(), w.press(), w.release(), w.drag()),
            area,
            MouseEvent { kind: MouseEventKind::Up(MouseButton::Left), column: x2, row: y2 },
            after_release,
            released,
        ),
    ensures
        (inside(area, x2, y2) && near((x2, y2), (x, y))) ==> (released matches EventResult::Consumed(v)
            && v@.len() == 1 && w.click().unwrap().gives((), v@[0])),
        (inside(area, x2, y2) && !near((x2, y2), (x, y))) ==> (released matches EventResult::Consumed(v)
            && v@.len() == 0),
        !inside(area, x2, y2) ==> released is Ignored,
        !after_release.pressed,
{
    law_press_release_click(w.mouse(), area, x, y, x2, y2, false, false, false, false);
    let up = MouseEvent { kind: MouseEventKind::Up(MouseButton::Left), column: x2, row: y2 };
    let fs = fired(after_press, area, up, false, false, false, true, false);
    if inside(area, x2, y2) && near((x2, y2), (x, y)) {
        assert(fs == seq![Fired::Click]);
        assert(callback_of((w.click(), w.hover(), w.press(), w.release(), w.drag()), fs[0]) == w.click());
    }
}

} // verus!
