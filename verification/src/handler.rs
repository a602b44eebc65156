//! Callbacks that widgets call to turn a change into a message.

use vstd::prelude::*;

verus! {

/// A callback from arguments `A` to a message `M`. Every closure of the
/// matching shape is one; `gives` holds of the arguments and the message of
/// each call.
pub trait Handler<A, M> {
    /// The callback accepts every argument.
    spec fn ready(&self) -> bool;

    /// `m` is a message the callback may give for `args`.
    spec fn gives(&self, args: A, m: M) -> bool;

    /// Calls the callback.
    fn call(&self, args: A) -> (m: M)
        requires
            self.ready(),
        ensures
            self.gives(args, m),
    ;
}

impl<M, F: Fn() -> M> Handler<(), M> for F {
    open spec fn ready(&self) -> bool {
        call_requires(*self, ())
    }

    open spec fn gives(&self, args: (), m: M) -> bool {
        call_ensures(*self, args, m)
    }

    fn call(&self, args: ()) -> (m: M) {
        (self)()
    }
}

impl<M, X, F: Fn(X) -> M> Handler<(X,), M> for F {
    open spec fn ready(&self) -> bool {
        forall|a: (X,)| call_requires(*self, a)
    }

    open spec fn gives(&self, args: (X,), m: M) -> bool {
        call_ensures(*self, args, m)
    }

    fn call(&self, args: (X,)) -> (m: M) {
        let (x,) = args;
        (self)(x)
    }
}

impl<M, X, Y, Z, F: Fn(X, Y, Z) -> M> Handler<(X, Y, Z), M> for F {
    open spec fn ready(&self) -> bool {
        forall|a: (X, Y, Z)| call_requires(*self, a)
    }

    open spec fn gives(&self, args: (X, Y, Z), m: M) -> bool {
        call_ensures(*self, args, m)
    }

    fn call(&self, args: (X, Y, Z)) -> (m: M) {
        let (x, y, z) = args;
        (self)(x, y, z)
    }
}

/// What an optional callback gives for `args`: no message without a callback,
/// one message it gives with one.
pub open spec fn fired<A, M>(h: Option<Box<dyn Handler<A, M>>>, args: A, out: Seq<M>) -> bool {
    match h {
        Some(f) => out.len() == 1 && f.gives(args, out[0]),
        None => out.len() == 0,
    }
}

/// Every callback present accepts every argument.
pub open spec fn handler_ready<A, M>(h: Option<Box<dyn Handler<A, M>>>) -> bool {
    h matches Some(f) ==> f.ready()
}

/// Calls the optional callback: its message, or none without one.
pub fn fire<A, M>(h: &Option<Box<dyn Handler<A, M>>>, args: A) -> (out: Vec<M>)
    requires
        handler_ready(*h),
    ensures
        fired(*h, args, out@),
{
    match h {
        Some(f) => {
            let m = f.call(args);
            let mut v = Vec::new();
            v.push(m);
            v
        },
        None => Vec::new(),
    }
}

/// An optional callback that accepts every argument.
#[verifier::reject_recursive_types(A)]
#[verifier::reject_recursive_types(M)]
pub struct ReadyHandler<A, M> {
    h: Option<Box<dyn Handler<A, M>>>,
}

impl<A, M> ReadyHandler<A, M> {
    #[verifier::type_invariant]
    spec fn inv(&self) -> bool {
        handler_ready(self.h)
    }

    /// The callback, if any.
    pub closed spec fn handler(&self) -> Option<Box<dyn Handler<A, M>>> {
        self.h
    }

    /// No callback.
    pub fn none() -> (r: Self)
        ensures
            r.handler().is_none(),
    {
        ReadyHandler { h: None }
    }

    /// Calls the callback: its message, or none without one.
    pub fn fire(&self, args: A) -> (out: Vec<M>)
        ensures
            fired(self.handler(), args, out@),
    {
        proof { use_type_invariant(self); }
        fire(&self.h, args)
    }
}

impl<X, M> ReadyHandler<(X,), M> {
    /// The closure `f` as a callback; it accepts every argument.
    pub fn from_fn<F: Fn(X) -> M + 'static>(f: F) -> (r: Self)
        requires
            forall|a: (X,)| call_requires(f, a),
        ensures
            r.handler() matches Some(g) && forall|a: (X,), m: M| g.gives(a, m) == call_ensures(f, a, m),
    {
        let h: Box<dyn Handler<(X,), M>> = Box::new(f);
        ReadyHandler { h: Some(h) }
    }
}

} // verus!
