//! Effects that handlers return to change the context of later handlers.
use vstd::prelude::*;

use crate::error::CliError;
use crate::params::{CollectedArgs, Context};
use crate::tag::TypeTag;

verus! {

/// Sets the value of type `state` to `value` for the handlers that run later,
/// as state of the environment: it replaces an earlier value of that type.
pub struct SetState<V> {
    pub state: TypeTag,
    pub value: V,
}

/// What a handler asks to change in the context bag.
pub enum Effect<V> {
    NoEffect,
    SetState(SetState<V>),
}

impl<V> Effect<V> {
    /// The context after the effect: the value is stored under its own type,
    /// and replacing an earlier value of that type is expected, so no warning
    /// is recorded.
    pub open spec fn applied_to(self, c: Context<V>) -> Context<V> {
        match self {
            Effect::NoEffect => c,
            Effect::SetState(s) => c.insert(s.state@, s.value, true),
        }
    }

    /// Applies the effect to `args`.
    pub fn apply_effect(self, args: &mut CollectedArgs<V>)
        requires
            old(args).wf(),
        ensures
            final(args).wf(),
            final(args)@ == self.applied_to(old(args)@),
    {
        match self {
            Effect::NoEffect => {},
            Effect::SetState(s) => {
                args.insert(s.state, s.value, true);
            },
        }
    }
}

/// What a handler returns, in the shapes that handlers use: nothing, a state
/// to set, or a result that holds either.
pub enum Returned<V> {
    /// `()`
    Unit,
    /// `SetState(s)` or `State(s)`
    State(SetState<V>),
    /// `Result<(), E>` (`Ok(None)`) or `Result<State<S>, E>` (`Ok(Some(s))`)
    Result(Result<Option<SetState<V>>, CliError>),
}

impl<V> Returned<V> {
    /// The effect of the return value, or the error it holds.
    pub fn into_effect(self) -> (r: Result<Effect<V>, CliError>)
        ensures
            match self {
                Returned::Unit => r == Ok::<Effect<V>, CliError>(Effect::NoEffect),
                Returned::State(s) => r == Ok::<Effect<V>, CliError>(Effect::SetState(s)),
                Returned::Result(Ok(None)) => r == Ok::<Effect<V>, CliError>(Effect::NoEffect),
                Returned::Result(Ok(Some(s))) => r == Ok::<Effect<V>, CliError>(Effect::SetState(s)),
                Returned::Result(Err(e)) => r == Err::<Effect<V>, CliError>(e),
            },
    {
        match self {
            Returned::Unit => Ok(Effect::NoEffect),
            Returned::State(s) => Ok(Effect::SetState(s)),
            Returned::Result(Ok(None)) => Ok(Effect::NoEffect),
            Returned::Result(Ok(Some(s))) => Ok(Effect::SetState(s)),
            Returned::Result(Err(e)) => Err(e),
        }
    }
}

} // verus!
