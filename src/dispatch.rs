//! One invocation of a command tree: built, ready to run, then finished.
use vstd::prelude::*;

use crate::command::{tree_error, CommandTree, ConfigError};
use crate::effects::{Effect, SetState};
use crate::error::{exit_code_of, CliError};
use crate::params::{CollectedArgs, Context};
use crate::record::Recorder;
use crate::walk::{registry_of, walk, walked, Handlers};

verus! {

/// The state of an invocation that has no tree yet.
pub struct Build;

/// The state of an invocation whose tree was checked and is ready to run.
pub struct Ready<V> {
    tree: CommandTree<V>,
}

/// The state of an invocation that has run.
pub struct Finished {
    result: Result<(), CliError>,
}

/// An invocation of a command tree, in state `S`. It owns the context bag
/// from the start of the run to its end.
pub struct Cling<V, S = Build> {
    status: S,
    args: CollectedArgs<V>,
}

impl<V, S> Cling<V, S> {
    /// The context bag of the invocation.
    pub closed spec fn context(&self) -> Context<V> {
        self.args@
    }

    pub closed spec fn args_wf(&self) -> bool {
        self.args.wf()
    }
}

impl<V> Cling<V, Build> {
    /// Checks `tree` and makes an invocation that is ready to run it, with an
    /// empty context bag.
    pub fn new(tree: CommandTree<V>) -> (r: Result<Cling<V, Ready<V>>, ConfigError>)
        ensures
            match tree_error(tree.nodes@) {
                Some(e) => r == Err::<Cling<V, Ready<V>>, ConfigError>(e),
                None => r is Ok && r->Ok_0.is_ready() && r->Ok_0.tree() == tree
                    && r->Ok_0.context() == Context::<V>::empty(),
            },
    {
        match tree.validate() {
            Err(e) => Err(e),
            Ok(()) => Ok(Cling { status: Ready { tree }, args: CollectedArgs::new() }),
        }
    }
}

impl<V> Cling<V, Build> {
    /// Checks `tree` and runs it from an empty context bag. A tree with a
    /// structural mistake fails with that mistake before anything runs.
    pub fn run_tree<H: Handlers<V>>(tree: CommandTree<V>, handlers: &mut Recorder<V, H>) -> (r: Cling<V, Finished>)
        ensures
            r.args_wf(),
            match tree_error(tree.nodes@) {
                Some(e) => r.outcome() == Err::<(), CliError>(CliError::InvalidCommand(e))
                    && r.context() == Context::<V>::empty() && final(handlers).calls() == old(
                    handlers,
                ).calls(),
                None => walked(
                    Context::<V>::empty(),
                    registry_of(tree.collect@),
                    tree.nodes@,
                    old(handlers).calls(),
                    final(handlers).calls(),
                    r.context(),
                    r.outcome(),
                ),
            },
    {
        match Cling::new(tree) {
            Err(e) => Cling::failed(CliError::InvalidCommand(e)),
            Ok(ready) => ready.run(handlers),
        }
    }
}

impl<V> Cling<V, Ready<V>> {
    /// The tree that the invocation runs.
    pub closed spec fn tree(&self) -> CommandTree<V> {
        self.status.tree
    }

    pub closed spec fn is_ready(&self) -> bool {
        &&& self.args.wf()
        &&& tree_error(self.status.tree.nodes@) is None
    }

    /// Runs the tree to its end or to its first error.
    pub fn run<H: Handlers<V>>(self, handlers: &mut Recorder<V, H>) -> (r: Cling<V, Finished>)
        requires
            self.is_ready(),
        ensures
            r.args_wf(),
            walked(
                self.context(),
                registry_of(self.tree().collect@),
                self.tree().nodes@,
                old(handlers).calls(),
                final(handlers).calls(),
                r.context(),
                r.outcome(),
            ),
    {
        let Cling { status, args } = self;
        let mut args = args;
        let ghost c0 = args@;
        let ghost tree = status.tree;
        let result = walk(status.tree, &mut args, handlers);
        let r = Cling { status: Finished { result }, args };
        proof {
            assert(c0 == self.context());
        }
        r
    }

    /// Runs the tree with `state` set before the first node, as if a handler
    /// had set it.
    pub fn run_with_state<H: Handlers<V>>(self, state: SetState<V>, handlers: &mut Recorder<V, H>) -> (r: Cling<
        V,
        Finished,
    >)
        requires
            self.is_ready(),
        ensures
            r.args_wf(),
            walked(
                Effect::SetState(state).applied_to(self.context()),
                registry_of(self.tree().collect@),
                self.tree().nodes@,
                old(handlers).calls(),
                final(handlers).calls(),
                r.context(),
                r.outcome(),
            ),
    {
        let Cling { status, args } = self;
        let mut args = args;
        Effect::SetState(state).apply_effect(&mut args);
        let ghost c0 = args@;
        let ghost tree = status.tree;
        let result = walk(status.tree, &mut args, handlers);
        let r = Cling { status: Finished { result }, args };
        proof {
            assert(c0 == Effect::SetState(state).applied_to(self.context()));
        }
        r
    }
}

impl<V> Cling<V, Finished> {
    /// The result of the run.
    pub closed spec fn outcome(&self) -> Result<(), CliError> {
        self.status.result
    }

    /// A finished invocation that succeeded without running anything.
    pub fn success() -> (r: Cling<V, Finished>)
        ensures
            r.args_wf(),
            r.outcome() is Ok,
            r.context() == Context::<V>::empty(),
    {
        Cling { status: Finished { result: Ok(()) }, args: CollectedArgs::new() }
    }

    /// A finished invocation that failed with `e` without running anything.
    pub fn failed(e: CliError) -> (r: Cling<V, Finished>)
        ensures
            r.args_wf(),
            r.outcome() == Err::<(), CliError>(e),
            r.context() == Context::<V>::empty(),
    {
        Cling { status: Finished { result: Err(e) }, args: CollectedArgs::new() }
    }

    pub fn result_ref(&self) -> (r: &Result<(), CliError>)
        ensures
            *r == self.outcome(),
    {
        &self.status.result
    }

    pub fn result(self) -> (r: Result<(), CliError>)
        ensures
            r == self.outcome(),
    {
        self.status.result
    }

    pub fn is_success(&self) -> (r: bool)
        ensures
            r == self.outcome() is Ok,
    {
        self.status.result.is_ok()
    }

    pub fn is_failure(&self) -> (r: bool)
        ensures
            r == self.outcome() is Err,
    {
        self.status.result.is_err()
    }

    /// The context bag as the run left it.
    pub fn collected_parameters(&self) -> (r: &CollectedArgs<V>)
        requires
            self.args_wf(),
        ensures
            r.wf(),
            r@ == self.context(),
    {
        &self.args
    }

    /// The context bag as the run left it, to change.
    pub fn collected_arguments_mut(&mut self) -> (r: &mut CollectedArgs<V>)
        ensures
            r@ == old(self).context(),
            r.wf() == old(self).args_wf(),
            final(self).outcome() == old(self).outcome(),
            final(self).context() == final(r)@,
            final(self).args_wf() == final(r).wf(),
    {
        &mut self.args
    }

    /// The exit code of the process: 0 on success, else the error's code.
    pub fn exit_code(&self) -> (r: u8)
        ensures
            r == match self.outcome() {
                Ok(()) => 0u8,
                Err(e) => exit_code_of(e),
            },
    {
        match &self.status.result {
            Ok(()) => 0,
            Err(e) => e.exit_code(),
        }
    }
}

} // verus!
