//! The walk down the selected branch: collect each node's fields, run its
//! handler, apply the handler's effect, and go on to the next node.
use vstd::prelude::*;

use crate::command::{handler_of, lemma_valid_node, tree_error, CommandTree, Field, Node, Policy};
use crate::effects::Effect;
use crate::error::CliError;
use crate::handler::{extract_params, first_absent, lemma_first_absent, reports_missing, HandlerRef};
use crate::params::{collectable, CollectableKind, CollectedArgs, Context};
use crate::record::Recorder;
use crate::tag::{TypeKey, Wrap};

verus! {

/// What the result of a handler is.
pub type Outcome<V> = Result<Effect<V>, CliError>;

/// One handler call: the handler's name, the values it was given, in
/// declaration order, and what it returned.
pub type Call<V> = (Seq<char>, Seq<V>, Outcome<V>);

/// The handlers of a command tree, written by the user of the library. Each
/// call receives the handler and its resolved parameters, in declaration
/// order.
pub trait Handlers<V> {
    fn call(&mut self, handler: &HandlerRef, args: Vec<&V>) -> Outcome<V>;
}

/// What the handlers of a list of calls returned, in turn.
pub open spec fn results_of<V>(calls: Seq<Call<V>>) -> Seq<Outcome<V>> {
    calls.map_values(|c: Call<V>| c.2)
}

/// The names of the base types that opted in to collection.
pub open spec fn registry_of(collect: Seq<String>) -> Seq<Seq<char>> {
    collect.map_values(|s: String| s@)
}

/// The context after collecting one field.
pub open spec fn collect_field<V>(c: Context<V>, reg: Seq<Seq<char>>, f: Field<V>) -> Context<V> {
    match f {
        Field::Value { tag, policy, value, .. } => match policy {
            Policy::Skip => c,
            Policy::Explicit => c.insert(tag@.wrap(Wrap::Collected), value, false),
            Policy::Auto => if collectable(reg, tag@) {
                c.insert(tag@, value, false)
            } else {
                c
            },
        },
        Field::SubNode { .. } => c,
    }
}

/// The context after collecting fields in declaration order.
pub open spec fn collect_fields<V>(c: Context<V>, reg: Seq<Seq<char>>, fields: Seq<Field<V>>) -> Context<V>
    decreases fields.len(),
{
    if fields.len() == 0 {
        c
    } else {
        collect_field(collect_fields(c, reg, fields.drop_last()), reg, fields.last())
    }
}

/// The context after collecting a node: a composite node first stores itself,
/// when its type opted in, then its fields.
pub open spec fn collect_node<V>(c: Context<V>, reg: Seq<Seq<char>>, node: Node<V>) -> Context<V> {
    match node {
        Node::Composite { tag, value, fields, .. } => {
            let c1 = if collectable(reg, tag@) {
                c.insert(tag@, value, false)
            } else {
                c
            };
            collect_fields(c1, reg, fields@)
        },
        Node::Choice { .. } => c,
    }
}

/// How far a walk has come: still running after the handler calls in `log`,
/// or stopped by a parameter that could not be resolved, or by the error
/// that the last call in `log` returned.
pub enum Progress<V> {
    Running { ctx: Context<V>, log: Seq<Call<V>> },
    Missing { ctx: Context<V>, log: Seq<Call<V>>, handler: Seq<char>, param: TypeKey },
    Failed { ctx: Context<V>, log: Seq<Call<V>>, error: CliError },
}

impl<V> Progress<V> {
    pub open spec fn ctx(self) -> Context<V> {
        match self {
            Progress::Running { ctx, .. } => ctx,
            Progress::Missing { ctx, .. } => ctx,
            Progress::Failed { ctx, .. } => ctx,
        }
    }

    /// The handler calls of the walk, in order.
    pub open spec fn log(self) -> Seq<Call<V>> {
        match self {
            Progress::Running { log, .. } => log,
            Progress::Missing { log, .. } => log,
            Progress::Failed { log, .. } => log,
        }
    }

    /// The number of handler results that the walk used.
    pub open spec fn used(self) -> nat {
        self.log().len()
    }
}

/// The values of the types `keys` in a bag, in order.
pub open spec fn values_of<V>(bag: Map<TypeKey, V>, keys: Seq<TypeKey>) -> Seq<V> {
    keys.map_values(|k: TypeKey| bag[k])
}

/// One node of a walk: collect the node; then, if it has a handler, resolve
/// its parameters from that context and, when they all resolve, call the
/// handler once with them and apply its result, the next of `outs`.
pub open spec fn step<V>(p: Progress<V>, reg: Seq<Seq<char>>, node: Node<V>, outs: Seq<Outcome<V>>) -> Progress<V> {
    match p {
        Progress::Running { ctx, log } => {
            let c = collect_node(ctx, reg, node);
            match handler_of(node) {
                None => Progress::Running { ctx: c, log },
                Some(h) => match first_absent(c.bag, h.param_keys()) {
                    Some(k) => Progress::Missing {
                        ctx: c,
                        log,
                        handler: h.name@,
                        param: h.param_keys()[k],
                    },
                    None => {
                        let o = outs[log.len() as int];
                        let call = (h.name@, values_of(c.bag, h.param_keys()), o);
                        match o {
                            Ok(e) => Progress::Running { ctx: e.applied_to(c), log: log.push(call) },
                            Err(error) => Progress::Failed { ctx: c, log: log.push(call), error },
                        }
                    },
                },
            }
        },
        _ => p,
    }
}

/// The progress of a walk from context `c0` after the first `d` nodes, where
/// the handlers returned `outs` in turn.
pub open spec fn progress<V>(
    c0: Context<V>,
    reg: Seq<Seq<char>>,
    nodes: Seq<Node<V>>,
    outs: Seq<Outcome<V>>,
    d: nat,
) -> Progress<V>
    decreases d,
{
    if d == 0 {
        Progress::Running { ctx: c0, log: Seq::empty() }
    } else {
        step(progress(c0, reg, nodes, outs, (d - 1) as nat), reg, nodes[d - 1], outs)
    }
}

/// Whether a walk that ended in context `c` with result `r` is the walk
/// `p` in which the handlers returned `outs`.
pub open spec fn ended_as<V>(p: Progress<V>, outs: Seq<Outcome<V>>, c: Context<V>, r: Result<(), CliError>) -> bool {
    &&& outs.len() == p.used()
    &&& c == p.ctx()
    &&& match p {
        Progress::Running { .. } => r is Ok,
        Progress::Missing { ctx, handler, param, .. } => r is Err && reports_missing(
            r->Err_0,
            handler,
            param,
            ctx.bag.dom(),
        ),
        Progress::Failed { error, .. } => r == Err::<(), CliError>(error),
    }
}

/// Whether a walk from context `c0` over `nodes` is what happened, when
/// the handlers' record of calls went from `before` to `after`, and the walk
/// ended in context `c` with result `r`: the new calls are exactly the calls
/// of the walk in which the handlers returned what these calls returned.
pub open spec fn walked<V>(
    c0: Context<V>,
    reg: Seq<Seq<char>>,
    nodes: Seq<Node<V>>,
    before: Seq<Call<V>>,
    after: Seq<Call<V>>,
    c: Context<V>,
    r: Result<(), CliError>,
) -> bool {
    let new = after.subrange(before.len() as int, after.len() as int);
    let p = progress(c0, reg, nodes, results_of(new), nodes.len());
    &&& before.len() <= after.len()
    &&& after.subrange(0, before.len() as int) == before
    &&& p.log() == new
    &&& ended_as(p, results_of(new), c, r)
}

pub proof fn lemma_stopped_stays<V>(
    c0: Context<V>,
    reg: Seq<Seq<char>>,
    nodes: Seq<Node<V>>,
    outs: Seq<Outcome<V>>,
    d: nat,
    e: nat,
)
    requires
        d <= e,
        !(progress(c0, reg, nodes, outs, d) is Running),
    ensures
        progress(c0, reg, nodes, outs, e) == progress(c0, reg, nodes, outs, d),
    decreases e - d,
{
    if d < e {
        lemma_stopped_stays(c0, reg, nodes, outs, d, (e - 1) as nat);
    }
}

/// The first `d` steps of a walk use only the first `d` nodes and the results
/// of the handlers that ran.
pub proof fn lemma_progress_prefix<V>(
    c0: Context<V>,
    reg: Seq<Seq<char>>,
    nodes: Seq<Node<V>>,
    nodes2: Seq<Node<V>>,
    outs: Seq<Outcome<V>>,
    outs2: Seq<Outcome<V>>,
    d: nat,
)
    requires
        d <= nodes.len(),
        d <= nodes2.len(),
        forall|i: int| 0 <= i < d ==> nodes[i] == nodes2[i],
        progress(c0, reg, nodes, outs, d).used() <= outs.len(),
        outs2.len() >= outs.len(),
        forall|i: int| 0 <= i < outs.len() ==> outs[i] == outs2[i],
    ensures
        progress(c0, reg, nodes, outs, d) == progress(c0, reg, nodes2, outs2, d),
    decreases d,
{
    if d > 0 {
        let p = progress(c0, reg, nodes, outs, (d - 1) as nat);
        if !(p is Running) {
            assert(progress(c0, reg, nodes, outs, d) == p);
        }
        assert(p.used() <= progress(c0, reg, nodes, outs, d).used());
        lemma_progress_prefix(c0, reg, nodes, nodes2, outs, outs2, (d - 1) as nat);
    }
}

fn collect_field_exec<V>(f: Field<V>, registry: &Vec<String>, args: &mut CollectedArgs<V>)
    requires
        old(args).wf(),
    ensures
        final(args).wf(),
        final(args)@ == collect_field(old(args)@, registry_of(registry@), f),
{
    match f {
        Field::Value { tag, policy, value, .. } => match policy {
            Policy::Skip => {},
            Policy::Explicit => {
                args.insert(tag.collected(), value, false);
            },
            Policy::Auto => {
                if CollectableKind::of(registry, &tag).can_collect() {
                    args.insert(tag, value, false);
                }
            },
        },
        Field::SubNode { .. } => {},
    }
}

/// Collects `node` into `args` and hands back the handler that runs there.
fn collect_node_exec<V>(node: Node<V>, registry: &Vec<String>, args: &mut CollectedArgs<V>) -> (h:
    Option<HandlerRef>)
    requires
        old(args).wf(),
        node matches Node::Choice { variants, selected, .. } ==> selected < variants.len(),
    ensures
        final(args).wf(),
        final(args)@ == collect_node(old(args)@, registry_of(registry@), node),
        h == handler_of(node),
{
    let ghost reg = registry_of(registry@);
    match node {
        Node::Composite { tag, value, handler, fields, .. } => {
            if CollectableKind::of(registry, &tag).can_collect() {
                args.insert(tag, value, false);
            }
            let ghost c1 = args@;
            let ghost all = fields@;
            let mut rest = fields;
            let count = rest.len();
            let mut i: usize = 0;
            while rest.len() > 0
                invariant
                    args.wf(),
                    all.len() == count,
                    reg == registry_of(registry@),
                    i <= all.len(),
                    rest@ == all.subrange(i as int, all.len() as int),
                    rest.len() == all.len() - i,
                    args@ == collect_fields(c1, reg, all.subrange(0, i as int)),
                decreases rest.len(),
            {
                let f = rest.remove(0);
                assert(f == all[i as int]);
                assert(all.subrange(0, i + 1).last() == all[i as int]);
                assert(all.subrange(0, i + 1).drop_last() =~= all.subrange(0, i as int));
                collect_field_exec(f, registry, args);
                i = i + 1;
                assert(rest@ =~= all.subrange(i as int, all.len() as int));
            }
            assert(all.subrange(0, i as int) =~= all);
            handler
        },
        Node::Choice { variants, selected, .. } => {
            let mut variants = variants;
            let v = variants.remove(selected);
            v.handler
        },
    }
}

/// Walks the selected branch of a well-formed tree, starting from the context
/// in `args`: each handler on the way is called once, in order, with the
/// values of its parameter types in the context of its node, and its result
/// is applied before the walk goes on; the walk stops at the first parameter
/// that does not resolve, or at the first handler that fails.
pub fn walk<V, H: Handlers<V>>(
    tree: CommandTree<V>,
    args: &mut CollectedArgs<V>,
    handlers: &mut Recorder<V, H>,
) -> (r:
    Result<(), CliError>)
    requires
        old(args).wf(),
        tree_error(tree.nodes@) is None,
    ensures
        final(args).wf(),
        walked(
            old(args)@,
            registry_of(tree.collect@),
            tree.nodes@,
            old(handlers).calls(),
            final(handlers).calls(),
            final(args)@,
            r,
        ),
{
    let ghost c0 = args@;
    let ghost reg = registry_of(tree.collect@);
    let ghost all = tree.nodes@;
    let ghost n = tree.nodes.len() as nat;
    let ghost calls0 = handlers.calls();
    let ghost mut log: Seq<Call<V>> = Seq::empty();
    let CommandTree { collect, nodes } = tree;
    let mut rest = nodes;
    let mut d: usize = 0;
    assert(results_of(log) =~= Seq::<Outcome<V>>::empty());
    while rest.len() > 0
        invariant
            args.wf(),
            c0 == old(args)@,
            all == tree.nodes@,
            n == tree.nodes.len(),
            reg == registry_of(tree.collect@),
            calls0 == old(handlers).calls(),
            d <= n,
            n == all.len(),
            reg == registry_of(collect@),
            tree_error(all) is None,
            rest@ == all.subrange(d as int, n as int),
            handlers.calls() == calls0 + log,
            progress(c0, reg, all, results_of(log), d as nat) == (Progress::Running { ctx: args@, log }),
        decreases rest.len(),
    {
        let node = rest.remove(0);
        assert(node == all[d as int]);
        proof {
            lemma_valid_node(all, d as int);
        }
        let handler = collect_node_exec(node, &collect, args);
        let ghost observed = args@;
        match handler {
            None => {},
            Some(h) => {
                let extracted = extract_params(args, &h);
                match extracted {
                    Err(e) => {
                        let r: Result<(), CliError> = Err(e);
                        proof {
                            lemma_first_absent(observed.bag, h.param_keys());
                            let k = first_absent(observed.bag, h.param_keys())->0;
                            assert(h.param_keys()[k] == h.params@[k]@);
                            lemma_stopped_stays(c0, reg, all, results_of(log), (d + 1) as nat, n);
                            lemma_walked(c0, reg, all, calls0, log, handlers.calls());
                        }
                        return r;
                    },
                    Ok(values) => {
                        let ghost vals = values@.map_values(|a: &V| *a);
                        proof {
                            assert(vals =~= values_of(observed.bag, h.param_keys()));
                        }
                        let out = handlers.call(&h, values);
                        let ghost prev = log;
                        proof {
                            log = log.push((h.name@, vals, out));
                            assert(results_of(log) =~= results_of(prev).push(out));
                            lemma_progress_prefix(c0, reg, all, all, results_of(prev), results_of(log), d as nat);
                        }
                        match out {
                            Ok(effect) => {
                                effect.apply_effect(args);
                            },
                            Err(e) => {
                                let r: Result<(), CliError> = Err(e);
                                proof {
                                    assert(progress(c0, reg, all, results_of(log), (d + 1) as nat) == (Progress::Failed {
                                        ctx: observed,
                                        log,
                                        error: e,
                                    }));
                                    lemma_stopped_stays(c0, reg, all, results_of(log), (d + 1) as nat, n);
                                    lemma_walked(c0, reg, all, calls0, log, handlers.calls());
                                }
                                return r;
                            },
                        }
                    },
                }
            },
        }
        d = d + 1;
        assert(rest@ =~= all.subrange(d as int, n as int));
    }
    let r: Result<(), CliError> = Ok(());
    proof {
        lemma_walked(c0, reg, all, calls0, log, handlers.calls());
    }
    r
}

proof fn lemma_walked<V>(
    c0: Context<V>,
    reg: Seq<Seq<char>>,
    nodes: Seq<Node<V>>,
    before: Seq<Call<V>>,
    log: Seq<Call<V>>,
    after: Seq<Call<V>>,
)
    requires
        after == before + log,
    ensures
        after.subrange(before.len() as int, after.len() as int) == log,
        after.subrange(0, before.len() as int) == before,
{
    assert(after.subrange(before.len() as int, after.len() as int) =~= log);
    assert(after.subrange(0, before.len() as int) =~= before);
}

} // verus!
