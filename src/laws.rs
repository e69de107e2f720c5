//! Properties of the engine as a whole, stated over the models of `walk`,
//! `command` and `params`, and proved.
use vstd::prelude::*;

use crate::command::{first_error, sub_count, tree_error, Field, Node, Policy};
use crate::effects::{Effect, SetState};
use crate::handler::first_absent;
use crate::params::{collectable, Context};
use crate::tag::{TypeKey, Wrap};
use crate::command::handler_of;
use crate::walk::{collect_field, collect_fields, collect_node, progress, values_of, Outcome};

verus! {

/// The key under which a field is stored, when it is stored at all.
pub open spec fn field_keys<V>(reg: Seq<Seq<char>>, f: Field<V>) -> Set<TypeKey> {
    match f {
        Field::Value { tag, policy, .. } => match policy {
            Policy::Skip => Set::empty(),
            Policy::Explicit => set![tag@.wrap(Wrap::Collected)],
            Policy::Auto => if collectable(reg, tag@) {
                set![tag@]
            } else {
                Set::empty()
            },
        },
        Field::SubNode { .. } => Set::empty(),
    }
}

/// The keys that a list of fields stores.
pub open spec fn fields_keys<V>(reg: Seq<Seq<char>>, fields: Seq<Field<V>>) -> Set<TypeKey>
    decreases fields.len(),
{
    if fields.len() == 0 {
        Set::empty()
    } else {
        fields_keys(reg, fields.drop_last()) + field_keys(reg, fields.last())
    }
}

/// The keys that a node stores when it is collected.
pub open spec fn node_keys<V>(reg: Seq<Seq<char>>, node: Node<V>) -> Set<TypeKey> {
    match node {
        Node::Composite { tag, fields, .. } => (if collectable(reg, tag@) {
            set![tag@]
        } else {
            Set::empty()
        }) + fields_keys(reg, fields@),
        Node::Choice { .. } => Set::empty(),
    }
}

/// The keys that the first `d` nodes store.
pub open spec fn path_keys<V>(reg: Seq<Seq<char>>, nodes: Seq<Node<V>>, d: nat) -> Set<TypeKey>
    decreases d,
{
    if d == 0 {
        Set::empty()
    } else {
        path_keys(reg, nodes, (d - 1) as nat) + node_keys(reg, nodes[d - 1])
    }
}

/// The key of the state that a handler result sets, if it sets one.
pub open spec fn outcome_keys<V>(o: Outcome<V>) -> Set<TypeKey> {
    match o {
        Ok(Effect::SetState(s)) => set![s.state@],
        _ => Set::empty(),
    }
}

/// The keys of the states that the first `n` handler results set.
pub open spec fn state_keys<V>(outs: Seq<Outcome<V>>, n: nat) -> Set<TypeKey>
    decreases n,
{
    if n == 0 {
        Set::empty()
    } else {
        state_keys(outs, (n - 1) as nat) + outcome_keys(outs[n - 1])
    }
}

/// The context that the handler of node `d` observes: what the walk had
/// before node `d`, with node `d` collected.
pub open spec fn observed<V>(
    c0: Context<V>,
    reg: Seq<Seq<char>>,
    nodes: Seq<Node<V>>,
    outs: Seq<Outcome<V>>,
    d: nat,
) -> Context<V> {
    collect_node(progress(c0, reg, nodes, outs, d).ctx(), reg, nodes[d as int])
}

proof fn lemma_collect_fields_keys<V>(c: Context<V>, reg: Seq<Seq<char>>, fields: Seq<Field<V>>)
    ensures
        collect_fields(c, reg, fields).bag.dom() == c.bag.dom() + fields_keys(reg, fields),
    decreases fields.len(),
{
    if fields.len() > 0 {
        lemma_collect_fields_keys(c, reg, fields.drop_last());
        let prev = collect_fields(c, reg, fields.drop_last());
        assert(collect_field(prev, reg, fields.last()).bag.dom() =~= prev.bag.dom() + field_keys(
            reg,
            fields.last(),
        ));
        assert(collect_fields(c, reg, fields).bag.dom() =~= c.bag.dom() + fields_keys(reg, fields));
    } else {
        assert(collect_fields(c, reg, fields).bag.dom() =~= c.bag.dom() + fields_keys(reg, fields));
    }
}

proof fn lemma_collect_node_keys<V>(c: Context<V>, reg: Seq<Seq<char>>, node: Node<V>)
    ensures
        collect_node(c, reg, node).bag.dom() == c.bag.dom() + node_keys(reg, node),
{
    match node {
        Node::Composite { tag, value, fields, .. } => {
            let c1 = if collectable(reg, tag@) {
                c.insert(tag@, value, false)
            } else {
                c
            };
            lemma_collect_fields_keys(c1, reg, fields@);
            assert(collect_node(c, reg, node).bag.dom() =~= c.bag.dom() + node_keys(reg, node));
        },
        Node::Choice { .. } => {
            assert(collect_node(c, reg, node).bag.dom() =~= c.bag.dom() + node_keys(reg, node));
        },
    }
}

proof fn lemma_running_keys<V>(
    c0: Context<V>,
    reg: Seq<Seq<char>>,
    nodes: Seq<Node<V>>,
    outs: Seq<Outcome<V>>,
    d: nat,
)
    requires
        d <= nodes.len(),
        progress(c0, reg, nodes, outs, d) is Running,
    ensures
        progress(c0, reg, nodes, outs, d).ctx().bag.dom() == c0.bag.dom() + path_keys(reg, nodes, d)
            + state_keys(outs, progress(c0, reg, nodes, outs, d).used()),
    decreases d,
{
    if d == 0 {
        assert(c0.bag.dom() + path_keys(reg, nodes, d) + state_keys(outs, 0) =~= c0.bag.dom());
    } else {
        let p = progress(c0, reg, nodes, outs, (d - 1) as nat);
        assert(p is Running);
        lemma_running_keys(c0, reg, nodes, outs, (d - 1) as nat);
        let node = nodes[d - 1];
        let c = collect_node(p.ctx(), reg, node);
        lemma_collect_node_keys(p.ctx(), reg, node);
        let q = progress(c0, reg, nodes, outs, d);
        if q.used() == p.used() {
            assert(q.ctx() == c);
        } else {
            assert(q.used() == p.used() + 1);
            let o = outs[p.used() as int];
            assert(state_keys(outs, q.used()) == state_keys(outs, p.used()) + outcome_keys(o));
            assert(q.ctx().bag.dom() =~= c.bag.dom() + outcome_keys(o));
        }
        assert(q.ctx().bag.dom() =~= c0.bag.dom() + path_keys(reg, nodes, d) + state_keys(
            outs,
            q.used(),
        ));
    }
}

/// A handler observes exactly the context that the root, the nodes on the
/// way down and the node of the handler itself produced, with the states set
/// by the handlers that ran before it, on top of the starting context.
/// The nodes below it do not change what it observes.
pub proof fn law_handler_observes_its_path<V>(
    c0: Context<V>,
    reg: Seq<Seq<char>>,
    nodes: Seq<Node<V>>,
    below: Seq<Node<V>>,
    outs: Seq<Outcome<V>>,
    d: nat,
)
    requires
        d < nodes.len(),
        d < below.len(),
        forall|i: int| 0 <= i <= d ==> nodes[i] == below[i],
        progress(c0, reg, nodes, outs, d) is Running,
    ensures
        observed(c0, reg, nodes, outs, d).bag.dom() == c0.bag.dom() + path_keys(
            reg,
            nodes,
            d + 1,
        ) + state_keys(outs, progress(c0, reg, nodes, outs, d).used()),
        observed(c0, reg, nodes, outs, d) == observed(c0, reg, below, outs, d),
{
    let p = progress(c0, reg, nodes, outs, d);
    lemma_running_keys(c0, reg, nodes, outs, d);
    lemma_collect_node_keys(p.ctx(), reg, nodes[d as int]);
    assert(observed(c0, reg, nodes, outs, d).bag.dom() =~= c0.bag.dom() + path_keys(reg, nodes, d + 1)
        + state_keys(outs, p.used()));
    lemma_same_prefix(c0, reg, nodes, below, outs, d);
}

/// The handler of node `d` is called once, after the calls of the nodes
/// above it, with the values that the context of its own node holds for its
/// parameter types, in declaration order; its result is the next result.
/// When one of those types is missing, it is not called and the walk stops.
pub proof fn law_handler_call<V>(
    c0: Context<V>,
    reg: Seq<Seq<char>>,
    nodes: Seq<Node<V>>,
    outs: Seq<Outcome<V>>,
    d: nat,
)
    requires
        d < nodes.len(),
        progress(c0, reg, nodes, outs, d) is Running,
        handler_of(nodes[d as int]) is Some,
    ensures
        ({
            let h = handler_of(nodes[d as int])->0;
            let seen = observed(c0, reg, nodes, outs, d);
            let before = progress(c0, reg, nodes, outs, d).log();
            let after = progress(c0, reg, nodes, outs, d + 1);
            if first_absent(seen.bag, h.param_keys()) is None {
                after.log() == before.push(
                    (h.name@, values_of(seen.bag, h.param_keys()), outs[before.len() as int]),
                )
            } else {
                after.log() == before && after is Missing
            }
        }),
{
}

/// The calls of a walk only grow: the calls made before node `d` come first,
/// in the same order, among the calls made before node `e`.
pub proof fn law_calls_in_order<V>(
    c0: Context<V>,
    reg: Seq<Seq<char>>,
    nodes: Seq<Node<V>>,
    outs: Seq<Outcome<V>>,
    d: nat,
    e: nat,
)
    requires
        d <= e,
    ensures
        progress(c0, reg, nodes, outs, d).log().len() <= progress(c0, reg, nodes, outs, e).log().len(),
        progress(c0, reg, nodes, outs, e).log().subrange(
            0,
            progress(c0, reg, nodes, outs, d).log().len() as int,
        ) == progress(c0, reg, nodes, outs, d).log(),
    decreases e - d,
{
    if d < e {
        law_calls_in_order(c0, reg, nodes, outs, d, (e - 1) as nat);
        let a = progress(c0, reg, nodes, outs, d).log();
        let b = progress(c0, reg, nodes, outs, (e - 1) as nat).log();
        let c = progress(c0, reg, nodes, outs, e).log();
        assert(c.subrange(0, b.len() as int) =~= b);
        assert(c.subrange(0, a.len() as int) =~= b.subrange(0, a.len() as int));
    } else {
        let a = progress(c0, reg, nodes, outs, d).log();
        assert(a.subrange(0, a.len() as int) =~= a);
    }
}

proof fn lemma_same_prefix<V>(
    c0: Context<V>,
    reg: Seq<Seq<char>>,
    nodes: Seq<Node<V>>,
    below: Seq<Node<V>>,
    outs: Seq<Outcome<V>>,
    d: nat,
)
    requires
        d <= nodes.len(),
        d <= below.len(),
        forall|i: int| 0 <= i < d ==> nodes[i] == below[i],
    ensures
        progress(c0, reg, nodes, outs, d) == progress(c0, reg, below, outs, d),
    decreases d,
{
    if d > 0 {
        lemma_same_prefix(c0, reg, nodes, below, outs, (d - 1) as nat);
    }
}

/// The key under which a stored field goes into the bag.
pub open spec fn stored_key<V>(f: Field<V>) -> TypeKey {
    if f->policy == Policy::Explicit {
        f->tag@.wrap(Wrap::Collected)
    } else {
        f->tag@
    }
}

/// Two fields that store the same type record a warning for the second one;
/// a state set by a handler replaces the earlier state without a warning.
pub proof fn law_collisions_warn<V>(
    c: Context<V>,
    reg: Seq<Seq<char>>,
    first: Field<V>,
    second: Field<V>,
    state: SetState<V>,
)
    requires
        first is Value,
        second is Value,
        first->policy != Policy::Skip,
        second->policy != Policy::Skip,
        stored_key(first) == stored_key(second),
        first->policy == Policy::Auto ==> collectable(reg, first->tag@),
        second->policy == Policy::Auto ==> collectable(reg, second->tag@),
    ensures
        collect_field(collect_field(c, reg, first), reg, second).warnings == collect_field(
            c,
            reg,
            first,
        ).warnings.push(stored_key(second)),
        collect_field(collect_field(c, reg, first), reg, second).bag[stored_key(second)]
            == second->value,
        Effect::SetState(state).applied_to(c).warnings == c.warnings,
        Effect::SetState(state).applied_to(c).bag[state.state@] == state.value,
{
}

/// `Option<T>` and `T` are different keys: a value of one never resolves a
/// parameter of the other, and a parameter of type `Option<T>` resolves
/// exactly when a value of type `Option<T>` is stored.
pub proof fn law_optional_is_its_own_type<V>(bag: Map<TypeKey, V>, k: TypeKey, v: V)
    ensures
        k.wrap(Wrap::Optional) != k,
        first_absent(bag, seq![k.wrap(Wrap::Optional)]) is None <==> bag.contains_key(
            k.wrap(Wrap::Optional),
        ),
        first_absent(bag, seq![k]) is None <==> bag.contains_key(k),
        bag.insert(k, v).contains_key(k.wrap(Wrap::Optional)) == bag.contains_key(
            k.wrap(Wrap::Optional),
        ),
        bag.insert(k.wrap(Wrap::Optional), v).contains_key(k) == bag.contains_key(k),
{
    assert(k.wrap(Wrap::Optional).wraps.len() != k.wraps.len());
    let ko = k.wrap(Wrap::Optional);
    assert(seq![ko].drop_last() =~= Seq::<TypeKey>::empty());
    assert(seq![k].drop_last() =~= Seq::<TypeKey>::empty());
    assert(first_absent(bag, Seq::<TypeKey>::empty()) is None);
    assert(seq![ko].last() == ko);
    assert(seq![k].last() == k);
    assert(first_absent(bag, seq![ko]) == (if bag.contains_key(ko) {
        None::<int>
    } else {
        Some(0int)
    }));
    assert(first_absent(bag, seq![k]) == (if bag.contains_key(k) {
        None::<int>
    } else {
        Some(0int)
    }));
}

/// A composite node with neither a handler nor a sub-node field makes the
/// whole tree fail its check, whatever the context would be.
pub proof fn law_composite_needs_handler_or_sub_node<V>(nodes: Seq<Node<V>>, i: int)
    requires
        0 <= i < nodes.len(),
        nodes[i] matches Node::Composite { handler, fields, .. } && handler is None && sub_count(
            fields@,
        ) == 0,
    ensures
        tree_error(nodes) is Some,
{
    lemma_error_at(nodes, nodes.len() as int, i);
}

proof fn lemma_error_at<V>(nodes: Seq<Node<V>>, k: int, i: int)
    requires
        0 <= i < k <= nodes.len(),
        nodes[i] matches Node::Composite { handler, fields, .. } && handler is None && sub_count(
            fields@,
        ) == 0,
    ensures
        first_error(nodes, k) is Some,
    decreases k,
{
    if i < k - 1 {
        lemma_error_at(nodes, k - 1, i);
    }
}

/// A value stored under a type is what a lookup of that type gives back;
/// an emptied bag holds nothing.
pub proof fn law_insert_then_get<V>(c: Context<V>, k: TypeKey, v: V, override_is_expected: bool)
    ensures
        c.insert(k, v, override_is_expected).bag.contains_key(k),
        c.insert(k, v, override_is_expected).bag[k] == v,
        !Map::<TypeKey, V>::empty().contains_key(k),
        Map::<TypeKey, V>::empty().dom().len() == 0,
{
}

} // verus!
