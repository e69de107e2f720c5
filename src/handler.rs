//! Handlers: what they ask for, and how their parameters are resolved.
use vstd::prelude::*;

use crate::anymap::lists_type_names;
use crate::error::CliError;
use crate::params::CollectedArgs;
use crate::tag::{TypeKey, TypeTag};

verus! {

/// A handler attached to a node: its name and the types of its parameters,
/// in declaration order.
pub struct HandlerRef {
    pub name: String,
    pub params: Vec<TypeTag>,
}

impl HandlerRef {
    pub open spec fn param_keys(self) -> Seq<TypeKey> {
        self.params@.map_values(|t: TypeTag| t@)
    }
}

/// The position of the first key that the bag lacks, if any.
pub open spec fn first_absent<V>(bag: Map<TypeKey, V>, keys: Seq<TypeKey>) -> Option<int>
    decreases keys.len(),
{
    if keys.len() == 0 {
        None
    } else {
        match first_absent(bag, keys.drop_last()) {
            Some(k) => Some(k),
            None => if bag.contains_key(keys.last()) {
                None
            } else {
                Some(keys.len() - 1)
            },
        }
    }
}

pub proof fn lemma_first_absent<V>(bag: Map<TypeKey, V>, keys: Seq<TypeKey>)
    ensures
        match first_absent(bag, keys) {
            Some(k) => 0 <= k < keys.len() && !bag.contains_key(keys[k]) && forall|j: int|
                0 <= j < k ==> bag.contains_key(#[trigger] keys[j]),
            None => forall|j: int| 0 <= j < keys.len() ==> bag.contains_key(#[trigger] keys[j]),
        },
    decreases keys.len(),
{
    if keys.len() > 0 {
        lemma_first_absent(bag, keys.drop_last());
        assert forall|j: int| 0 <= j < keys.len() - 1 implies keys[j] == keys.drop_last()[j] by {}
    }
}

/// The names of stored types as a pretty-printed list.
pub open spec fn name_lines(names: Seq<Seq<char>>) -> Seq<char>
    decreases names.len(),
{
    if names.len() == 0 {
        Seq::empty()
    } else {
        name_lines(names.drop_last()) + "    \""@ + names.last() + "\",\n"@
    }
}

pub open spec fn render_names(names: Seq<Seq<char>>) -> Seq<char> {
    if names.len() == 0 {
        "[]"@
    } else {
        "[\n"@ + name_lines(names) + "]"@
    }
}

pub open spec fn possible_reasons() -> Seq<char> {
    "   - The type did not opt in to collection\n   - The field is not collected explicitly\n   - The type is not present in any field or command leading to this command in the command hierarchy\n   - The type is declared as Option<T> or Vec<T> and the handler asks for T, or the other way round\n\n"@
}

/// The diagnostic for a handler whose parameter of type `missing` could not
/// be resolved, given the sorted names of the stored types.
pub open spec fn missing_message(handler: Seq<char>, missing: Seq<char>, names: Seq<Seq<char>>) -> Seq<char> {
    "In `"@ + handler + "`: Type `"@ + missing
        + "` was not collected from input arguments. Possible reasons:\n"@ + possible_reasons()
        + "   Those are the types that have been collected: "@ + render_names(names) + "\n"@
}

/// Whether `e` reports that `handler` misses its parameter `param` while the
/// bag holds the types `dom`.
pub open spec fn reports_missing(e: CliError, handler: Seq<char>, param: TypeKey, dom: Set<TypeKey>) -> bool {
    &&& e is InvalidHandler
    &&& exists|names: Seq<Seq<char>>|
        lists_type_names(names, dom) && e->InvalidHandler_0@ == missing_message(
            handler,
            param.name(),
            names,
        )
}

fn render_name_list(names: &Vec<String>) -> (r: String)
    ensures
        r@ == render_names(names@.map_values(|s: String| s@)),
{
    let ghost all = names@.map_values(|s: String| s@);
    proof {
        reveal_strlit("[]");
        reveal_strlit("[\n");
        reveal_strlit("]");
        reveal_strlit("    \"");
        reveal_strlit("\",\n");
    }
    if names.len() == 0 {
        return String::from_str("[]");
    }
    let mut s = String::from_str("[\n");
    let mut i: usize = 0;
    while i < names.len()
        invariant
            i <= names.len(),
            all == names@.map_values(|s: String| s@),
            s@ == "[\n"@ + name_lines(all.subrange(0, i as int)),
        decreases names.len() - i,
    {
        assert(all.subrange(0, i + 1).drop_last() =~= all.subrange(0, i as int));
        s.append("    \"");
        s.append(names[i].as_str());
        s.append("\",\n");
        assert(s@ =~= "[\n"@ + name_lines(all.subrange(0, i + 1)));
        i = i + 1;
    }
    assert(all.subrange(0, i as int) =~= all);
    s.append("]");
    s
}

/// The diagnostic for `handler`, whose parameter of type `missing` is not in
/// `args`.
fn missing_type_error<V>(args: &CollectedArgs<V>, handler: &HandlerRef, missing: &TypeTag) -> (r:
    CliError)
    requires
        args.wf(),
    ensures
        reports_missing(r, handler.name@, missing@, args@.bag.dom()),
{
    proof {
        reveal_strlit("In `");
        reveal_strlit("`: Type `");
        reveal_strlit("` was not collected from input arguments. Possible reasons:\n");
        reveal_strlit("   - The type did not opt in to collection\n   - The field is not collected explicitly\n   - The type is not present in any field or command leading to this command in the command hierarchy\n   - The type is declared as Option<T> or Vec<T> and the handler asks for T, or the other way round\n\n");
        reveal_strlit("   Those are the types that have been collected: ");
        reveal_strlit("\n");
    }
    let collected = args.collected_types();
    let listing = render_name_list(&collected);
    let mut msg = String::from_str("In `");
    msg.append(handler.name.as_str());
    msg.append("`: Type `");
    let ty = missing.name();
    msg.append(ty.as_str());
    msg.append("` was not collected from input arguments. Possible reasons:\n");
    msg.append("   - The type did not opt in to collection\n   - The field is not collected explicitly\n   - The type is not present in any field or command leading to this command in the command hierarchy\n   - The type is declared as Option<T> or Vec<T> and the handler asks for T, or the other way round\n\n");
    msg.append("   Those are the types that have been collected: ");
    msg.append(listing.as_str());
    msg.append("\n");
    let r = CliError::InvalidHandler(msg);
    proof {
        let names = collected@.map_values(|s: String| s@);
        assert(msg@ =~= missing_message(handler.name@, missing@.name(), names));
        assert(lists_type_names(names, args@.bag.dom()));
    }
    r
}

/// Resolves the parameters of `handler` from `args`, in declaration order:
/// each parameter is the stored value of its exact type. Fails on the first
/// parameter whose type is not stored, with a diagnostic that names the
/// handler, that type and the sorted names of the stored types.
pub fn extract_params<'a, V>(args: &'a CollectedArgs<V>, handler: &HandlerRef) -> (r: Result<
    Vec<&'a V>,
    CliError,
>)
    requires
        args.wf(),
    ensures
        match first_absent(args@.bag, handler.param_keys()) {
            None => r is Ok && r->Ok_0@.len() == handler.params.len() && forall|i: int|
                0 <= i < handler.params.len() ==> *(#[trigger] r->Ok_0@[i])
                    == args@.bag[handler.params@[i]@],
            Some(k) => r is Err && reports_missing(
                r->Err_0,
                handler.name@,
                handler.params@[k]@,
                args@.bag.dom(),
            ),
        },
{
    let ghost keys = handler.param_keys();
    proof {
        lemma_first_absent(args@.bag, keys);
    }
    let mut out: Vec<&'a V> = Vec::new();
    let mut i: usize = 0;
    while i < handler.params.len()
        invariant
            i <= handler.params.len(),
            args.wf(),
            keys == handler.param_keys(),
            out@.len() == i,
            forall|j: int| 0 <= j < i ==> args@.bag.contains_key(#[trigger] keys[j]),
            forall|j: int| 0 <= j < i ==> *(#[trigger] out@[j]) == args@.bag[handler.params@[j]@],
        decreases handler.params.len() - i,
    {
        assert(keys[i as int] == handler.params@[i as int]@);
        match args.get(&handler.params[i]) {
            Some(v) => {
                out.push(v);
            },
            None => {
                proof {
                    lemma_first_absent(args@.bag, keys);
                    match first_absent(args@.bag, keys) {
                        Some(k) => {
                            if k < i {
                                assert(args@.bag.contains_key(keys[k]));
                            }
                            if k > i {
                                assert(args@.bag.contains_key(keys[i as int]));
                            }
                        },
                        None => {
                            assert(args@.bag.contains_key(keys[i as int]));
                        },
                    }
                }
                return Err(missing_type_error(args, handler, &handler.params[i]));
            },
        }
        i = i + 1;
    }
    proof {
        match first_absent(args@.bag, keys) {
            Some(k) => {
                assert(args@.bag.contains_key(keys[k]));
            },
            None => {},
        }
    }
    Ok(out)
}

} // verus!
