//! The command tree of one invocation, and its structural checks.
//!
//! The parser resolves the command line into the branch of the command tree
//! that was selected: its nodes, listed from the root down, where each node
//! but the last delegates to the node after it.
use vstd::prelude::*;

use crate::handler::HandlerRef;
use crate::tag::TypeTag;

verus! {

/// How a field of a composite node enters the context bag.
#[derive(Clone, Copy, Debug, PartialEq, Eq, Structural)]
pub enum Policy {
    /// Collected when its type opted in to collection.
    Auto,
    /// Always collected, as `Collected<T>`.
    Explicit,
    /// Never collected.
    Skip,
}

/// A field of a composite node.
pub enum Field<V> {
    /// A field that carries a value of type `tag`.
    Value { name: String, tag: TypeTag, policy: Policy, value: V },
    /// The field that holds the sub-node; its value is the next node.
    SubNode { name: String },
}

/// A variant of a choice node: a unit variant that runs a handler, or a
/// wrapper that delegates to an inner node.
pub struct Variant {
    pub name: String,
    pub handler: Option<HandlerRef>,
    pub wraps_node: bool,
}

/// A node of the selected branch.
pub enum Node<V> {
    /// A struct of fields, itself a value of type `tag`.
    Composite {
        name: String,
        tag: TypeTag,
        value: V,
        handler: Option<HandlerRef>,
        fields: Vec<Field<V>>,
    },
    /// A choice among variants, of which the parser selected one.
    Choice { name: String, handler: Option<HandlerRef>, variants: Vec<Variant>, selected: usize },
}

/// The selected branch of a command tree, from the root down, and the base
/// types that opted in to collection.
pub struct CommandTree<V> {
    pub collect: Vec<String>,
    pub nodes: Vec<Node<V>>,
}

/// A structural mistake in a command tree, found before anything runs.
#[derive(Clone, Copy, Debug, PartialEq, Eq, Structural)]
pub enum ConfigError {
    /// The tree has no node.
    Empty,
    /// A composite node has neither a handler nor a sub-node field.
    NoHandlerOrSubNode { node: usize },
    /// A composite node has more than one sub-node field.
    DuplicateSubNode { node: usize },
    /// A choice node has a handler of its own.
    ChoiceWithHandler { node: usize },
    /// A unit variant has no handler.
    UnitVariantWithoutHandler { node: usize, variant: usize },
    /// A wrapper variant has a handler.
    WrapperVariantWithHandler { node: usize, variant: usize },
    /// The selected variant does not exist.
    SelectionOutOfRange { node: usize },
    /// A node delegates to a sub-node, but it is the last node.
    MissingSubNode { node: usize },
    /// A node does not delegate, but nodes follow it.
    UnexpectedSubNode { node: usize },
}

impl ConfigError {
    pub open spec fn describe(self) -> Seq<char> {
        match self {
            ConfigError::Empty => "the command tree has no node"@,
            ConfigError::NoHandlerOrSubNode { .. } => "a command must have a handler or a sub-command field"@,
            ConfigError::DuplicateSubNode { .. } => "sub-command fields can only be used once in a command"@,
            ConfigError::ChoiceWithHandler { .. } => "a choice of sub-commands cannot have a handler; give one to each unit variant instead"@,
            ConfigError::UnitVariantWithoutHandler { .. } => "unit variants must have a handler"@,
            ConfigError::WrapperVariantWithHandler { .. } => "variants that wrap a command cannot have a handler; give one to the inner command instead"@,
            ConfigError::SelectionOutOfRange { .. } => "the selected variant does not exist"@,
            ConfigError::MissingSubNode { .. } => "a command delegates to a sub-command that is missing"@,
            ConfigError::UnexpectedSubNode { .. } => "a command that does not delegate is followed by another"@,
        }
    }

    /// A sentence that describes the mistake.
    pub fn description(&self) -> (r: String)
        ensures
            r@ == self.describe(),
    {
        proof {
            reveal_strlit("the command tree has no node");
            reveal_strlit("a command must have a handler or a sub-command field");
            reveal_strlit("sub-command fields can only be used once in a command");
            reveal_strlit("a choice of sub-commands cannot have a handler; give one to each unit variant instead");
            reveal_strlit("unit variants must have a handler");
            reveal_strlit("variants that wrap a command cannot have a handler; give one to the inner command instead");
            reveal_strlit("the selected variant does not exist");
            reveal_strlit("a command delegates to a sub-command that is missing");
            reveal_strlit("a command that does not delegate is followed by another");
        }
        let s = match self {
            ConfigError::Empty => "the command tree has no node",
            ConfigError::NoHandlerOrSubNode { .. } => "a command must have a handler or a sub-command field",
            ConfigError::DuplicateSubNode { .. } => "sub-command fields can only be used once in a command",
            ConfigError::ChoiceWithHandler { .. } => "a choice of sub-commands cannot have a handler; give one to each unit variant instead",
            ConfigError::UnitVariantWithoutHandler { .. } => "unit variants must have a handler",
            ConfigError::WrapperVariantWithHandler { .. } => "variants that wrap a command cannot have a handler; give one to the inner command instead",
            ConfigError::SelectionOutOfRange { .. } => "the selected variant does not exist",
            ConfigError::MissingSubNode { .. } => "a command delegates to a sub-command that is missing",
            ConfigError::UnexpectedSubNode { .. } => "a command that does not delegate is followed by another",
        };
        String::from_str(s)
    }
}

/// The number of sub-node fields.
pub open spec fn sub_count<V>(fields: Seq<Field<V>>) -> nat
    decreases fields.len(),
{
    if fields.len() == 0 {
        0
    } else {
        sub_count(fields.drop_last()) + if fields.last() is SubNode {
            1nat
        } else {
            0nat
        }
    }
}

/// The first variant that breaks the rules for variants, if any.
pub open spec fn first_bad_variant(variants: Seq<Variant>) -> Option<int>
    decreases variants.len(),
{
    if variants.len() == 0 {
        None
    } else {
        match first_bad_variant(variants.drop_last()) {
            Some(j) => Some(j),
            None => {
                let v = variants.last();
                if v.wraps_node == v.handler.is_some() {
                    Some(variants.len() - 1)
                } else {
                    None
                }
            },
        }
    }
}

/// The mistake of node `i`, given whether it is the last node.
pub open spec fn node_error<V>(node: Node<V>, i: usize, last: bool) -> Option<ConfigError> {
    match node {
        Node::Composite { handler, fields, .. } => {
            let subs = sub_count(fields@);
            if subs > 1 {
                Some(ConfigError::DuplicateSubNode { node: i })
            } else if handler is None && subs == 0 {
                Some(ConfigError::NoHandlerOrSubNode { node: i })
            } else if subs == 1 && last {
                Some(ConfigError::MissingSubNode { node: i })
            } else if subs == 0 && !last {
                Some(ConfigError::UnexpectedSubNode { node: i })
            } else {
                None
            }
        },
        Node::Choice { handler, variants, selected, .. } => {
            if handler is Some {
                Some(ConfigError::ChoiceWithHandler { node: i })
            } else if first_bad_variant(variants@) is Some {
                let j = first_bad_variant(variants@)->0;
                if variants@[j].wraps_node {
                    Some(ConfigError::WrapperVariantWithHandler { node: i, variant: j as usize })
                } else {
                    Some(ConfigError::UnitVariantWithoutHandler { node: i, variant: j as usize })
                }
            } else if selected >= variants.len() {
                Some(ConfigError::SelectionOutOfRange { node: i })
            } else if variants@[selected as int].wraps_node && last {
                Some(ConfigError::MissingSubNode { node: i })
            } else if !variants@[selected as int].wraps_node && !last {
                Some(ConfigError::UnexpectedSubNode { node: i })
            } else {
                None
            }
        },
    }
}

/// The first mistake among the first `n` nodes, if any.
pub open spec fn first_error<V>(nodes: Seq<Node<V>>, n: int) -> Option<ConfigError>
    decreases n,
{
    if n <= 0 {
        None
    } else {
        match first_error(nodes, n - 1) {
            Some(e) => Some(e),
            None => node_error(nodes[n - 1], (n - 1) as usize, n == nodes.len()),
        }
    }
}

/// The mistake of a tree, if it has one.
pub open spec fn tree_error<V>(nodes: Seq<Node<V>>) -> Option<ConfigError> {
    if nodes.len() == 0 {
        Some(ConfigError::Empty)
    } else {
        first_error(nodes, nodes.len() as int)
    }
}

/// The handler that runs at a node of a well-formed tree.
pub open spec fn handler_of<V>(node: Node<V>) -> Option<HandlerRef> {
    match node {
        Node::Composite { handler, .. } => handler,
        Node::Choice { variants, selected, .. } => variants@[selected as int].handler,
    }
}

fn count_sub_nodes<V>(fields: &Vec<Field<V>>) -> (r: usize)
    ensures
        r == sub_count(fields@),
{
    let mut n: usize = 0;
    let mut i: usize = 0;
    while i < fields.len()
        invariant
            i <= fields.len(),
            n == sub_count(fields@.subrange(0, i as int)),
            n <= i,
        decreases fields.len() - i,
    {
        assert(fields@.subrange(0, i + 1).drop_last() =~= fields@.subrange(0, i as int));
        if let Field::SubNode { .. } = &fields[i] {
            n = n + 1;
        }
        i = i + 1;
    }
    assert(fields@.subrange(0, i as int) =~= fields@);
    n
}

fn find_bad_variant(variants: &Vec<Variant>) -> (r: Option<usize>)
    ensures
        match r {
            Some(j) => j < variants.len() && first_bad_variant(variants@) == Some(j as int),
            None => first_bad_variant(variants@) is None,
        },
{
    let mut i: usize = 0;
    while i < variants.len()
        invariant
            i <= variants.len(),
            first_bad_variant(variants@.subrange(0, i as int)) is None,
        decreases variants.len() - i,
    {
        let ghost pre = variants@.subrange(0, i + 1);
        assert(pre.drop_last() =~= variants@.subrange(0, i as int));
        if variants[i].wraps_node == variants[i].handler.is_some() {
            proof {
                lemma_first_bad_variant_prefix(variants@, i as int + 1);
            }
            return Some(i);
        }
        i = i + 1;
    }
    assert(variants@.subrange(0, i as int) =~= variants@);
    None
}

proof fn lemma_first_bad_variant_prefix(variants: Seq<Variant>, n: int)
    requires
        0 <= n <= variants.len(),
        first_bad_variant(variants.subrange(0, n)) is Some,
    ensures
        first_bad_variant(variants) == first_bad_variant(variants.subrange(0, n)),
    decreases variants.len() - n,
{
    if n < variants.len() {
        assert(variants.subrange(0, n + 1).drop_last() =~= variants.subrange(0, n));
        lemma_first_bad_variant_prefix(variants, n + 1);
    } else {
        assert(variants.subrange(0, n) =~= variants);
    }
}

fn check_node<V>(node: &Node<V>, i: usize, last: bool) -> (r: Option<ConfigError>)
    ensures
        r == node_error(*node, i, last),
{
    match node {
        Node::Composite { handler, fields, .. } => {
            let subs = count_sub_nodes(fields);
            if subs > 1 {
                Some(ConfigError::DuplicateSubNode { node: i })
            } else if handler.is_none() && subs == 0 {
                Some(ConfigError::NoHandlerOrSubNode { node: i })
            } else if subs == 1 && last {
                Some(ConfigError::MissingSubNode { node: i })
            } else if subs == 0 && !last {
                Some(ConfigError::UnexpectedSubNode { node: i })
            } else {
                None
            }
        },
        Node::Choice { handler, variants, selected, .. } => {
            if handler.is_some() {
                return Some(ConfigError::ChoiceWithHandler { node: i });
            }
            if let Some(j) = find_bad_variant(variants) {
                if variants[j].wraps_node {
                    return Some(ConfigError::WrapperVariantWithHandler { node: i, variant: j });
                } else {
                    return Some(ConfigError::UnitVariantWithoutHandler { node: i, variant: j });
                }
            }
            if *selected >= variants.len() {
                Some(ConfigError::SelectionOutOfRange { node: i })
            } else if variants[*selected].wraps_node && last {
                Some(ConfigError::MissingSubNode { node: i })
            } else if !variants[*selected].wraps_node && !last {
                Some(ConfigError::UnexpectedSubNode { node: i })
            } else {
                None
            }
        },
    }
}

impl<V> CommandTree<V> {
    /// Checks the tree before anything runs: the first structural mistake, in
    /// the order of the nodes, or `Ok` when there is none.
    pub fn validate(&self) -> (r: Result<(), ConfigError>)
        ensures
            match tree_error(self.nodes@) {
                Some(e) => r == Err::<(), ConfigError>(e),
                None => r is Ok,
            },
    {
        let n = self.nodes.len();
        if n == 0 {
            return Err(ConfigError::Empty);
        }
        let mut i: usize = 0;
        while i < n
            invariant
                n == self.nodes.len(),
                i <= n,
                first_error(self.nodes@, i as int) is None,
            decreases n - i,
        {
            if let Some(e) = check_node(&self.nodes[i], i, i + 1 == n) {
                proof {
                    lemma_first_error_prefix(self.nodes@, i as int + 1);
                }
                return Err(e);
            }
            i = i + 1;
        }
        Ok(())
    }
}

/// Every node of a tree without mistakes passes the checks for its place.
pub proof fn lemma_valid_node<V>(nodes: Seq<Node<V>>, i: int)
    requires
        tree_error(nodes) is None,
        0 <= i < nodes.len(),
    ensures
        node_error(nodes[i], i as usize, i + 1 == nodes.len()) is None,
        nodes[i] matches Node::Choice { variants, selected, .. } ==> selected < variants.len(),
{
    lemma_no_error_before(nodes, nodes.len() as int, i);
}

proof fn lemma_no_error_before<V>(nodes: Seq<Node<V>>, k: int, i: int)
    requires
        first_error(nodes, k) is None,
        0 <= i < k,
    ensures
        node_error(nodes[i], i as usize, i + 1 == nodes.len()) is None,
    decreases k,
{
    if i < k - 1 {
        lemma_no_error_before(nodes, k - 1, i);
    }
}

proof fn lemma_first_error_prefix<V>(nodes: Seq<Node<V>>, n: int)
    requires
        0 <= n <= nodes.len(),
        first_error(nodes, n) is Some,
    ensures
        first_error(nodes, nodes.len() as int) == first_error(nodes, n),
    decreases nodes.len() - n,
{
    if n < nodes.len() {
        lemma_first_error_prefix(nodes, n + 1);
    }
}

} // verus!
