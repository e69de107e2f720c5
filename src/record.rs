//! The record of the handler calls of a run.
use vstd::prelude::*;

use crate::handler::HandlerRef;
use crate::walk::{Call, Handlers, Outcome};

verus! {

/// Handlers together with the record of every call made to them through
/// `call`, oldest first: the handler's name, the values it was given and
/// what it returned.
pub struct Recorder<V, H> {
    handlers: H,
    calls: Ghost<Seq<Call<V>>>,
}

impl<V, H: Handlers<V>> Recorder<V, H> {
    /// The calls made so far.
    pub closed spec fn calls(&self) -> Seq<Call<V>> {
        self.calls@
    }

    /// The handlers.
    pub closed spec fn inner(&self) -> H {
        self.handlers
    }

    /// A record of no calls to `handlers`.
    pub fn new(handlers: H) -> (r: Recorder<V, H>)
        ensures
            r.calls() == Seq::<Call<V>>::empty(),
            r.inner() == handlers,
    {
        Recorder { handlers, calls: Ghost(Seq::empty()) }
    }

    /// Calls `handler` with `args` and records the call.
    pub fn call(&mut self, handler: &HandlerRef, args: Vec<&V>) -> (r: Outcome<V>)
        ensures
            final(self).calls() == old(self).calls().push(
                (handler.name@, args@.map_values(|a: &V| *a), r),
            ),
    {
        let ghost values = args@.map_values(|a: &V| *a);
        let r = self.handlers.call(handler, args);
        self.calls = Ghost(self.calls@.push((handler.name@, values, r)));
        r
    }

    /// The handlers, to look at.
    pub fn handlers(&self) -> (r: &H)
        ensures
            *r == self.inner(),
    {
        &self.handlers
    }

    /// The handlers, given back.
    pub fn into_inner(self) -> (r: H)
        ensures
            r == self.inner(),
    {
        self.handlers
    }
}

} // verus!
