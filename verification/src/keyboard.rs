//! A widget that draws nothing and turns key presses into messages.

use vstd::prelude::*;
use crate::event::{Event, EventResult, KeyCode, Widget};
use crate::layout::{fixed_view, Constraints};
use crate::handler::Handler;
use std::sync::Arc;

verus! {

/// Position of the handler of key `k`, or -1.
pub open spec fn handler_index<M>(hs: Seq<(KeyCode, M)>, k: KeyCode) -> int
    decreases hs.len(),
{
    if hs.len() == 0 {
        -1
    } else if hs.last().0 == k {
        hs.len() - 1
    } else {
        handler_index(hs.drop_last(), k)
    }
}

/// The message registered for key `k`.
pub open spec fn handler_for<M>(hs: Seq<(KeyCode, M)>, k: KeyCode) -> Option<M> {
    let i = handler_index(hs, k);
    if i < 0 {
        None
    } else {
        Some(hs[i].1)
    }
}

/// Registers `m` for key `k`, replacing an earlier registration of `k`.
pub open spec fn handler_insert<M>(hs: Seq<(KeyCode, M)>, k: KeyCode, m: M) -> Seq<(KeyCode, M)> {
    let i = handler_index(hs, k);
    if i < 0 {
        hs.push((k, m))
    } else {
        hs.update(i, (k, m))
    }
}

/// Registers the messages `ms` for the keys `ks`, in order.
pub open spec fn handlers_after<M>(hs: Seq<(KeyCode, M)>, ks: Seq<KeyCode>, ms: Seq<M>) -> Seq<
    (KeyCode, M),
>
    decreases ks.len(),
{
    if ks.len() == 0 || ms.len() == 0 {
        hs
    } else {
        handler_insert(handlers_after(hs, ks.drop_last(), ms.drop_last()), ks.last(), ms.last())
    }
}

/// The keys of a list of key-message pairs.
pub open spec fn keys_of<M>(ps: Seq<(KeyCode, M)>) -> Seq<KeyCode> {
    ps.map_values(|p: (KeyCode, M)| p.0)
}

/// The character keys of a list of characters.
pub open spec fn char_key_codes(cs: Seq<char>) -> Seq<KeyCode> {
    cs.map_values(|c: char| char_key(c))
}

/// The key of a character.
pub open spec fn char_key(c: char) -> KeyCode {
    KeyCode::Char(c)
}

/// Every key is registered at most once.
pub open spec fn keys_unique<M>(hs: Seq<(KeyCode, M)>) -> bool {
    forall|i: int, j: int| 0 <= i < j < hs.len() ==> (#[trigger] hs[i]).0 != (#[trigger] hs[j]).0
}

proof fn lemma_handler_index<M>(hs: Seq<(KeyCode, M)>, k: KeyCode)
    ensures
        -1 <= handler_index(hs, k) < hs.len(),
        handler_index(hs, k) >= 0 ==> hs[handler_index(hs, k)].0 == k,
        handler_index(hs, k) < 0 ==> forall|i: int| 0 <= i < hs.len() ==> (#[trigger] hs[i]).0 != k,
    decreases hs.len(),
{
    if hs.len() > 0 && hs.last().0 != k {
        lemma_handler_index(hs.drop_last(), k);
        assert forall|i: int| 0 <= i < hs.len() - 1 implies (#[trigger] hs[i]).0 == hs.drop_last()[i].0 by {}
    }
}

proof fn lemma_handler_index_unique<M>(hs: Seq<(KeyCode, M)>, j: int, k: KeyCode)
    requires
        keys_unique(hs),
        0 <= j < hs.len(),
        hs[j].0 == k,
    ensures
        handler_index(hs, k) == j,
    decreases hs.len(),
{
    if j < hs.len() - 1 {
        assert(hs.last().0 != k);
        assert(keys_unique(hs.drop_last()));
        assert(hs.drop_last()[j] == hs[j]);
        lemma_handler_index_unique(hs.drop_last(), j, k);
    }
}

/// After registering `m` for `k`, key `k` yields `m` and every other key yields
/// what it yielded before; keys stay unique.
pub proof fn law_handler_insert<M>(hs: Seq<(KeyCode, M)>, k: KeyCode, m: M, other: KeyCode)
    requires
        keys_unique(hs),
    ensures
        handler_for(handler_insert(hs, k, m), k) == Some(m),
        other != k ==> handler_for(handler_insert(hs, k, m), other) == handler_for(hs, other),
        keys_unique(handler_insert(hs, k, m)),
{
    lemma_handler_index(hs, k);
    lemma_handler_index(hs, other);
    let r = handler_insert(hs, k, m);
    let i = handler_index(hs, k);
    assert(keys_unique(r));
    if i < 0 {
        lemma_handler_index_unique(r, hs.len() as int, k);
    } else {
        lemma_handler_index_unique(r, i, k);
    }
    if other != k {
        let o = handler_index(hs, other);
        lemma_handler_index(r, other);
        if o >= 0 {
            assert(r[o] == hs[o]);
            lemma_handler_index_unique(r, o, other);
        } else {
            if handler_index(r, other) >= 0 {
                let x = handler_index(r, other);
                assert(r[x].0 == other);
                if x < hs.len() {
                    assert(r[x] == hs[x]);
                }
            }
        }
    }
}

/// A callback that takes nothing and gives a message, shared between copies
/// of a controller.
pub type KeyCallback<M> = Arc<Box<dyn Handler<(), M>>>;

/// What a key press calls: a fixed message (cloned on each press) or a
/// callback.
#[verifier::reject_recursive_types(M)]
pub enum KeyHandler<M> {
    Message(M),
    Call(KeyCallback<M>),
}

/// `m` is a message `h` may give for a press.
pub open spec fn handler_gives<M: Clone>(h: KeyHandler<M>, m: M) -> bool {
    match h {
        KeyHandler::Message(x) => cloned::<M>(x, m),
        KeyHandler::Call(f) => f.gives((), m),
    }
}

/// The callback of `h`, if any, accepts every call.
pub open spec fn handler_ok<M>(h: KeyHandler<M>) -> bool {
    match h {
        KeyHandler::Message(_) => true,
        KeyHandler::Call(f) => f.ready(),
    }
}

/// `h` calls `handler`: a callback giving what `handler` gives.
pub open spec fn calls<M, F: Fn() -> M>(h: KeyHandler<M>, handler: F) -> bool {
    h matches KeyHandler::Call(f) && forall|m: M| #[trigger] f.gives((), m) == call_ensures(handler, (), m)
}

/// `h` is a callback whose every message is one `handler` may give for `ch`.
pub open spec fn calls_with<M, F: Fn(char) -> M>(h: KeyHandler<M>, handler: F, ch: char) -> bool {
    h matches KeyHandler::Call(f) && forall|m: M| #[trigger] f.gives((), m) ==> call_ensures(handler, (ch,), m)
}

/// `Arc::clone`: another pointer to the same value; std documents that the
/// clone points to the same allocation, which the contract states as equality.
#[verifier::external_body]
fn share_arc<T>(a: &Arc<T>) -> (r: Arc<T>)
    ensures
        r == *a,
{
    Arc::clone(a)
}

/// The handler a controller calls for an event, if any: the Up or Down
/// handler first, then the handler registered for the key.
pub open spec fn controller_message<M>(
    up: Option<KeyHandler<M>>,
    down: Option<KeyHandler<M>>,
    hs: Seq<(KeyCode, KeyHandler<M>)>,
    event: Event,
) -> Option<KeyHandler<M>> {
    match event {
        Event::Key(ke) => if ke.code == KeyCode::Up && up.is_some() {
            up
        } else if ke.code == KeyCode::Down && down.is_some() {
            down
        } else {
            handler_for(hs, ke.code)
        },
        _ => None,
    }
}

/// Keyboard controller: intercepts key presses and emits messages, calling
/// the attached handler on every press.
#[verifier::reject_recursive_types(M)]
pub struct KeyboardController<M> {
    on_up: Option<KeyHandler<M>>,
    on_down: Option<KeyHandler<M>>,
    key_handlers: Vec<(KeyCode, KeyHandler<M>)>,
}

impl<M> KeyboardController<M> {
    #[verifier::type_invariant]
    spec fn inv(&self) -> bool {
        &&& (self.on_up matches Some(h) ==> handler_ok(h))
        &&& (self.on_down matches Some(h) ==> handler_ok(h))
        &&& forall|i: int| 0 <= i < self.key_handlers@.len() ==> handler_ok(#[trigger] self.key_handlers@[i].1)
    }

    pub closed spec fn up(&self) -> Option<KeyHandler<M>> {
        self.on_up
    }

    pub closed spec fn down(&self) -> Option<KeyHandler<M>> {
        self.on_down
    }

    pub closed spec fn handlers(&self) -> Seq<(KeyCode, KeyHandler<M>)> {
        self.key_handlers@
    }

    /// A controller with no handlers.
    pub fn new() -> (c: Self)
        ensures
            c.up().is_none(),
            c.down().is_none(),
            c.handlers() == Seq::<(KeyCode, KeyHandler<M>)>::empty(),
    {
        KeyboardController { on_up: None, on_down: None, key_handlers: Vec::new() }
    }

    /// Attaches the handler of Up key presses.
    pub fn on_up<F: Fn() -> M + 'static>(self, handler: F) -> (c: Self)
        requires
            call_requires(handler, ()),
        ensures
            c.up() matches Some(h) && calls(h, handler),
            c.down() == self.down(),
            c.handlers() == self.handlers(),
    {
        proof { use_type_invariant(&self); }
        let b: Box<dyn Handler<(), M>> = Box::new(handler);
        let h = KeyHandler::Call(Arc::new(b));
        KeyboardController { on_up: Some(h), on_down: self.on_down, key_handlers: self.key_handlers }
    }

    /// Attaches the handler of Down key presses.
    pub fn on_down<F: Fn() -> M + 'static>(self, handler: F) -> (c: Self)
        requires
            call_requires(handler, ()),
        ensures
            c.down() matches Some(h) && calls(h, handler),
            c.up() == self.up(),
            c.handlers() == self.handlers(),
    {
        proof { use_type_invariant(&self); }
        let b: Box<dyn Handler<(), M>> = Box::new(handler);
        let h = KeyHandler::Call(Arc::new(b));
        KeyboardController { on_up: self.on_up, on_down: Some(h), key_handlers: self.key_handlers }
    }

    /// Registers `h` for `key_code`, replacing an earlier registration.
    fn insert_handler(&mut self, key_code: KeyCode, h: KeyHandler<M>)
        requires
            handler_ok(h),
        ensures
            final(self).handlers() == handler_insert(old(self).handlers(), key_code, h),
            final(self).up() == old(self).up(),
            final(self).down() == old(self).down(),
    {
        proof { use_type_invariant(&*self); }
        let ghost hs = self.key_handlers@;
        let mut j: usize = self.key_handlers.len();
        while j > 0 && self.key_handlers[j - 1].0 != key_code
            invariant
                j <= self.key_handlers.len(),
                hs == self.key_handlers@,
                forall|i: int| j <= i < hs.len() ==> (#[trigger] hs[i]).0 != key_code,
            decreases j,
        {
            j = j - 1;
        }
        let mut v: Vec<(KeyCode, KeyHandler<M>)> = Vec::new();
        std::mem::swap(&mut v, &mut self.key_handlers);
        if j > 0 {
            proof {
                lemma_handler_index_last(hs, key_code, j - 1);
            }
            v.set(j - 1, (key_code, h));
        } else {
            proof {
                lemma_handler_index_none(hs, key_code);
            }
            v.push((key_code, h));
        }
        proof {
            assert forall|i: int| 0 <= i < v@.len() implies handler_ok(#[trigger] v@[i].1) by {
                if i < hs.len() && v@[i] == hs[i] {
                    assert(handler_ok(hs[i].1));
                }
            }
        }
        self.key_handlers = v;
    }

    /// Attaches the handler of presses of `key_code`.
    pub fn on_key<F: Fn() -> M + 'static>(self, key_code: KeyCode, handler: F) -> (c: Self)
        requires
            call_requires(handler, ()),
        ensures
            exists|h: KeyHandler<M>| calls(h, handler) && c.handlers() == handler_insert(self.handlers(), key_code, h),
            c.up() == self.up(),
            c.down() == self.down(),
    {
        let b: Box<dyn Handler<(), M>> = Box::new(handler);
        let h = KeyHandler::Call(Arc::new(b));
        let ghost gh = h;
        let mut c = self;
        c.insert_handler(key_code, h);
        proof {
            assert(calls(gh, handler));
        }
        c
    }

    /// Attaches the handler of presses of the character key `ch`.
    pub fn on<F: Fn() -> M + 'static>(self, ch: char, handler: F) -> (c: Self)
        requires
            call_requires(handler, ()),
        ensures
            exists|h: KeyHandler<M>| calls(h, handler) && c.handlers() == handler_insert(self.handlers(), KeyCode::Char(ch), h),
            c.up() == self.up(),
            c.down() == self.down(),
    {
        self.on_key(KeyCode::Char(ch), handler)
    }

    /// Registers each message for its key, in order; a press gives a clone of
    /// the message.
    pub fn on_keys(self, mappings: &[(KeyCode, M)]) -> (c: Self) where M: Clone
        ensures
            exists|ms: Seq<KeyHandler<M>>|
                ms.len() == mappings@.len() && (forall|i: int|
                    0 <= i < ms.len() ==> (#[trigger] ms[i] matches KeyHandler::Message(x) && cloned::<M>(mappings@[i].1, x)))
                    && c.handlers() == #[trigger] handlers_after(self.handlers(), keys_of(mappings@), ms),
            c.up() == self.up(),
            c.down() == self.down(),
    {
        let mut c = self;
        let ghost keys = keys_of(mappings@);
        let ghost mut ms: Seq<KeyHandler<M>> = Seq::empty();
        let mut i: usize = 0;
        while i < mappings.len()
            invariant
                i <= mappings.len(),
                ms.len() == i,
                keys == keys_of(mappings@),
                forall|j: int| 0 <= j < i ==> (#[trigger] ms[j] matches KeyHandler::Message(x) && cloned::<M>(mappings@[j].1, x)),
                c.handlers() == handlers_after(self.handlers(), keys.take(i as int), ms),
                c.up() == self.up(),
                c.down() == self.down(),
            decreases mappings.len() - i,
        {
            let m = mappings[i].1.clone();
            let h = KeyHandler::Message(m);
            let ghost gh = h;
            c.insert_handler(mappings[i].0, h);
            proof {
                let ms2 = ms.push(gh);
                assert(keys.take(i + 1).drop_last() == keys.take(i as int));
                assert(ms2.drop_last() == ms);
                assert(keys.take(i + 1).last() == mappings@[i as int].0);
                ms = ms2;
            }
            i = i + 1;
        }
        assert(keys.take(mappings.len() as int) == keys);
        c
    }

    /// Registers `handler` for each character of `char_list`; a press calls
    /// `handler` with the character.
    pub fn on_chars<F: Fn(char) -> M + 'static>(self, char_list: &[char], handler: F) -> (c: Self)
        requires
            forall|a: (char,)| call_requires(handler, a),
        ensures
            exists|ms: Seq<KeyHandler<M>>|
                ms.len() == char_list@.len() && (forall|i: int|
                    0 <= i < ms.len() ==> #[trigger] calls_with(ms[i], handler, char_list@[i]))
                    && c.handlers() == #[trigger] handlers_after(self.handlers(), char_key_codes(char_list@), ms),
            c.up() == self.up(),
            c.down() == self.down(),
    {
        let fa: Arc<F> = Arc::new(handler);
        let mut c = self;
        let ghost keys = char_key_codes(char_list@);
        assert(keys.len() == char_list@.len());
        let ghost mut ms: Seq<KeyHandler<M>> = Seq::empty();
        let mut i: usize = 0;
        while i < char_list.len()
            invariant
                i <= char_list.len(),
                ms.len() == i,
                *fa == handler,
                forall|a: (char,)| call_requires(handler, a),
                keys == char_key_codes(char_list@),
                keys.len() == char_list@.len(),
                forall|j: int| 0 <= j < i ==> #[trigger] calls_with(ms[j], handler, char_list@[j]),
                c.handlers() == handlers_after(self.handlers(), keys.take(i as int), ms),
                c.up() == self.up(),
                c.down() == self.down(),
            decreases char_list.len() - i,
        {
            let ch = char_list[i];
            let g = share_arc(&fa);
            let cl = move || -> (m: M)
                requires
                    call_requires(*g, (ch,)),
                ensures
                    call_ensures(*g, (ch,), m),
            { (*g)(ch) };
            proof {
                assert(*g == handler);
                assert(call_requires(handler, (ch,)));
            }
            let h = Self::call_handler(cl);
            let ghost gh = h;
            proof {
                assert(*g == handler);
                assert(call_requires(handler, (ch,)));
                assert(handler_ok(gh));
                assert forall|m: M| #[trigger] call_ensures(cl, (), m) implies call_ensures(handler, (ch,), m) by {}
                assert(calls_with(gh, handler, ch));
            }
            c.insert_handler(KeyCode::Char(ch), h);
            proof {
                let ms2 = ms.push(gh);
                assert(keys.take(i + 1).drop_last() == keys.take(i as int));
                assert(ms2.drop_last() == ms);
                assert(keys[i as int] == KeyCode::Char(char_list@[i as int]));
                assert(keys.take(i + 1).last() == KeyCode::Char(ch));
                ms = ms2;
            }
            i = i + 1;
        }
        assert(keys.take(char_list.len() as int) == keys);
        c
    }

    /// The handler that calls `f`.
    fn call_handler<F: Fn() -> M + 'static>(f: F) -> (h: KeyHandler<M>)
        requires
            call_requires(f, ()),
        ensures
            handler_ok(h),
            calls(h, f),
    {
        let boxed: Box<dyn Handler<(), M>> = Box::new(f);
        KeyHandler::Call(Arc::new(boxed))
    }

    /// Calls handler `h` for a press.
    fn fire(h: &KeyHandler<M>) -> (m: M) where M: Clone
        requires
            handler_ok(*h),
        ensures
            handler_gives(*h, m),
    {
        match h {
            KeyHandler::Message(x) => x.clone(),
            KeyHandler::Call(f) => f.call(()),
        }
    }

    /// Produces the message for an event, or ignores it.
    pub fn handle_key_event(&self, event: &Event) -> (r: EventResult<M>) where M: Clone
        ensures
            match controller_message(self.up(), self.down(), self.handlers(), *event) {
                Some(h) => r matches EventResult::Consumed(v) && v@.len() == 1 && handler_gives(h, v@[0]),
                None => r is Ignored,
            },
    {
        proof { use_type_invariant(self); }
        if let Event::Key(key_event) = event {
            match key_event.code {
                KeyCode::Up => {
                    if let Some(h) = &self.on_up {
                        return EventResult::consumed_with(Self::fire(h));
                    }
                },
                KeyCode::Down => {
                    if let Some(h) = &self.on_down {
                        return EventResult::consumed_with(Self::fire(h));
                    }
                },
                _ => {},
            }
            let ghost hs = self.key_handlers@;
            let mut j: usize = self.key_handlers.len();
            while j > 0 && self.key_handlers[j - 1].0 != key_event.code
                invariant
                    j <= self.key_handlers.len(),
                    hs == self.key_handlers@,
                    forall|i: int| j <= i < hs.len() ==> (#[trigger] hs[i]).0 != key_event.code,
                decreases j,
            {
                j = j - 1;
            }
            if j > 0 {
                proof {
                    lemma_handler_index_last(hs, key_event.code, j - 1);
                    assert(handler_ok(hs[j - 1].1));
                }
                return EventResult::consumed_with(Self::fire(&self.key_handlers[j - 1].1));
            } else {
                proof {
                    lemma_handler_index_none(hs, key_event.code);
                }
            }
        }
        EventResult::Ignored
    }
}

/// A copy of a handler: a clone of a fixed message, the same callback.
fn copy_handler<M: Clone>(h: &KeyHandler<M>) -> (r: KeyHandler<M>)
    ensures
        handler_ok(*h) ==> handler_ok(r),
        forall|m: M| handler_gives(*h, m) ==> (#[trigger] handler_gives(r, m)) || (*h is Message),
        *h is Call ==> r == *h,
        *h matches KeyHandler::Message(x) ==> r matches KeyHandler::Message(y) && cloned::<M>(x, y),
{
    match h {
        KeyHandler::Message(x) => KeyHandler::Message(x.clone()),
        KeyHandler::Call(f) => KeyHandler::Call(share_arc(f)),
    }
}

impl<M: Clone> Clone for KeyboardController<M> {
    /// The same keys and callbacks, fixed messages cloned.
    fn clone(&self) -> (c: Self)
        ensures
            c.handlers().len() == self.handlers().len(),
            forall|i: int| 0 <= i < c.handlers().len() ==> (#[trigger] c.handlers()[i]).0 == self.handlers()[i].0,
    {
        proof { use_type_invariant(self); }
        let on_up = match &self.on_up {
            Some(h) => Some(copy_handler(h)),
            None => None,
        };
        let on_down = match &self.on_down {
            Some(h) => Some(copy_handler(h)),
            None => None,
        };
        let mut key_handlers: Vec<(KeyCode, KeyHandler<M>)> = Vec::new();
        let mut i: usize = 0;
        while i < self.key_handlers.len()
            invariant
                i <= self.key_handlers@.len(),
                key_handlers@.len() == i,
                forall|j: int| 0 <= j < self.key_handlers@.len() ==> handler_ok(#[trigger] self.key_handlers@[j].1),
                forall|j: int| 0 <= j < i ==> handler_ok(#[trigger] key_handlers@[j].1) && key_handlers@[j].0 == self.key_handlers@[j].0,
            decreases self.key_handlers@.len() - i,
        {
            let h = copy_handler(&self.key_handlers[i].1);
            key_handlers.push((self.key_handlers[i].0, h));
            i = i + 1;
        }
        let c = KeyboardController { on_up, on_down, key_handlers };
        proof {
            assert forall|j: int| 0 <= j < c.handlers().len() implies (#[trigger] c.handlers()[j]).0 == self.handlers()[j].0 by {
                assert(handler_ok(key_handlers@[j].1));
            }
        }
        c
    }
}

proof fn lemma_handler_index_last<M>(hs: Seq<(KeyCode, M)>, k: KeyCode, j: int)
    requires
        0 <= j < hs.len(),
        hs[j].0 == k,
        forall|i: int| j < i < hs.len() ==> (#[trigger] hs[i]).0 != k,
    ensures
        handler_index(hs, k) == j,
    decreases hs.len(),
{
    if j < hs.len() - 1 {
        assert(hs.last().0 != k);
        assert forall|i: int| j < i < hs.len() - 1 implies (#[trigger] hs.drop_last()[i]).0 != k by {
            assert(hs.drop_last()[i] == hs[i]);
        }
        lemma_handler_index_last(hs.drop_last(), k, j);
    }
}

proof fn lemma_handler_index_none<M>(hs: Seq<(KeyCode, M)>, k: KeyCode)
    requires
        forall|i: int| 0 <= i < hs.len() ==> (#[trigger] hs[i]).0 != k,
    ensures
        handler_index(hs, k) == -1,
    decreases hs.len(),
{
    if hs.len() > 0 {
        assert(hs.last().0 != k);
        assert forall|i: int| 0 <= i < hs.len() - 1 implies (#[trigger] hs.drop_last()[i]).0 != k by {
            assert(hs.drop_last()[i] == hs[i]);
        }
        lemma_handler_index_none(hs.drop_last(), k);
    }
}

impl<M: Clone> Widget<M> for KeyboardController<M> {
    /// A controller takes no room.
    open spec fn sized_as(&self, c: Constraints) -> bool {
        c@ == fixed_view(0, 0)
    }

    /// It takes no focus.
    fn focusable(&self) -> (r: bool) {
        false
    }

    /// It is never focused.
    fn is_focused(&self) -> (r: bool) {
        false
    }

    /// It keeps no focus flag.
    fn set_focused(&mut self, _focused: bool) {
    }

    /// A controller ignores every event it has no message for.
    open spec fn passes_over(&self, event: Event) -> bool {
        controller_message(self.up(), self.down(), self.handlers(), event).is_none()
    }

    /// The Up or Down handler's message, else the message registered for the
    /// key, as one consumed message; any other event is ignored. The controller
    /// is left as it was.
    fn handle_event(&mut self, event: &Event) -> (r: EventResult<M>)
        ensures
            *final(self) == *old(self),
            match controller_message(old(self).up(), old(self).down(), old(self).handlers(), *event) {
                Some(h) => r matches EventResult::Consumed(v) && v@.len() == 1 && handler_gives(h, v@[0]),
                None => r is Ignored,
            },
    {
        self.handle_key_event(event)
    }

    /// A keyboard controller takes no space.
    /// A controller takes no room.
    fn constraints(&self) -> (c: Constraints)
        ensures
            c@ == fixed_view(0, 0),
    {
        Constraints::fixed(0, 0)
    }
}

/// A new keyboard controller.
pub fn keyboard_controller<M>() -> (c: KeyboardController<M>)
    ensures
        c.up().is_none(),
        c.down().is_none(),
        c.handlers() == Seq::<(KeyCode, KeyHandler<M>)>::empty(),
{
    KeyboardController::new()
}

} // verus!
