//! The context bag of one invocation, and which types may enter it unasked.
use vstd::prelude::*;

use crate::anymap::{lists_type_names, sorted_by_name, AnyMap};
use crate::tag::{TypeKey, TypeTag, Wrap};

verus! {

/// What a context bag holds: one value per type, and the types whose value
/// was collected twice where that was not expected.
pub struct Context<V> {
    pub bag: Map<TypeKey, V>,
    pub warnings: Seq<TypeKey>,
}

impl<V> Context<V> {
    pub open spec fn empty() -> Context<V> {
        Context { bag: Map::empty(), warnings: Seq::empty() }
    }

    /// Stores `v` under `k`; replacing a value is reported unless it was expected.
    pub open spec fn insert(self, k: TypeKey, v: V, override_is_expected: bool) -> Context<V> {
        Context {
            bag: self.bag.insert(k, v),
            warnings: if self.bag.contains_key(k) && !override_is_expected {
                self.warnings.push(k)
            } else {
                self.warnings
            },
        }
    }
}

/// Whether a type is collected from command fields without being asked:
/// its base type opted in, and it is wrapped only in `Option` and `Vec`.
pub open spec fn collectable(registry: Seq<Seq<char>>, k: TypeKey) -> bool {
    &&& registry.contains(k.base)
    &&& forall|i: int|
        0 <= i < k.wraps.len() ==> #[trigger] k.wraps[i] == Wrap::Optional || k.wraps[i]
            == Wrap::List
}

/// The kind of a type that may be collected.
pub struct Collectable;

impl Collectable {
    pub fn can_collect(&self) -> (r: bool)
        ensures
            r,
    {
        true
    }
}

/// The kind of a type that is never collected unasked.
pub struct Uncollectable;

impl Uncollectable {
    pub fn can_collect(&self) -> (r: bool)
        ensures
            !r,
    {
        false
    }
}

/// The collection kind of a type.
pub enum CollectableKind {
    Collectable(Collectable),
    Unknown(Uncollectable),
}

impl CollectableKind {
    /// The kind of the type `tag` under the opt-in list `registry`.
    pub fn of(registry: &Vec<String>, tag: &TypeTag) -> (r: CollectableKind)
        ensures
            (r is Collectable) == collectable(registry@.map_values(|s: String| s@), tag@),
    {
        let ghost names = registry@.map_values(|s: String| s@);
        let mut found = false;
        let mut i: usize = 0;
        while i < registry.len()
            invariant
                i <= registry.len(),
                names == registry@.map_values(|s: String| s@),
                found == exists|j: int| 0 <= j < i && names[j] == tag.base@,
            decreases registry.len() - i,
        {
            assert(names[i as int] == registry@[i as int]@);
            if registry[i] == tag.base {
                found = true;
                assert(names[i as int] == tag.base@);
            }
            i = i + 1;
        }
        proof {
            if found {
                let j = choose|j: int| 0 <= j < i && names[j] == tag.base@;
                assert(names.contains(tag.base@));
            }
            if names.contains(tag.base@) {
                let j = choose|j: int| 0 <= j < names.len() && names[j] == tag.base@;
                assert(0 <= j < i && names[j] == tag.base@);
            }
        }
        if !found {
            return CollectableKind::Unknown(Uncollectable);
        }
        let mut k: usize = 0;
        while k < tag.wraps.len()
            invariant
                k <= tag.wraps.len(),
                forall|j: int|
                    0 <= j < k ==> #[trigger] tag.wraps@[j] == Wrap::Optional || tag.wraps@[j]
                        == Wrap::List,
            decreases tag.wraps.len() - k,
        {
            if tag.wraps[k] != Wrap::Optional && tag.wraps[k] != Wrap::List {
                return CollectableKind::Unknown(Uncollectable);
            }
            k = k + 1;
        }
        CollectableKind::Collectable(Collectable)
    }

    pub fn can_collect(&self) -> (r: bool)
        ensures
            r == (self is Collectable),
    {
        match self {
            CollectableKind::Collectable(c) => c.can_collect(),
            CollectableKind::Unknown(u) => u.can_collect(),
        }
    }
}

/// The values collected for one invocation: arguments taken from the command
/// line and state handed down by handlers.
pub struct CollectedArgs<V> {
    map: Option<AnyMap<V>>,
    warnings: Vec<TypeTag>,
}

impl<V> View for CollectedArgs<V> {
    type V = Context<V>;

    closed spec fn view(&self) -> Context<V> {
        Context {
            bag: match self.map {
                Some(m) => m@,
                None => Map::empty(),
            },
            warnings: self.warnings@.map_values(|t: TypeTag| t@),
        }
    }
}

impl<V> Default for CollectedArgs<V> {
    fn default() -> (r: CollectedArgs<V>)
        ensures
            r.wf(),
            r@ == Context::<V>::empty(),
    {
        CollectedArgs::new()
    }
}

impl<V> CollectedArgs<V> {
    pub closed spec fn wf(&self) -> bool {
        match self.map {
            Some(m) => m.wf(),
            None => true,
        }
    }

    /// The stored types, in the order of their names.
    pub closed spec fn keys(&self) -> Seq<TypeKey> {
        match self.map {
            Some(m) => m.keys(),
            None => Seq::empty(),
        }
    }

    pub proof fn lemma_keys(&self)
        requires
            self.wf(),
        ensures
            self.keys().no_duplicates(),
            self.keys().to_set() == self@.bag.dom(),
            sorted_by_name(self.keys()),
    {
        match self.map {
            Some(m) => m.lemma_keys(),
            None => {
                assert(self.keys().to_set() =~= Set::<TypeKey>::empty());
            },
        }
    }

    /// An empty bag.
    pub fn new() -> (r: CollectedArgs<V>)
        ensures
            r.wf(),
            r@ == Context::<V>::empty(),
    {
        let r = CollectedArgs { map: None, warnings: Vec::new() };
        assert(r@.warnings =~= Seq::<TypeKey>::empty());
        r
    }

    /// The value stored under `tag`, if any.
    pub fn get(&self, tag: &TypeTag) -> (r: Option<&V>)
        requires
            self.wf(),
        ensures
            match r {
                Some(v) => self@.bag.contains_key(tag@) && *v == self@.bag[tag@],
                None => !self@.bag.contains_key(tag@),
            },
    {
        match &self.map {
            Some(m) => m.get(tag),
            None => None,
        }
    }

    /// The value stored under `tag`, if any, to change in place.
    pub fn get_mut(&mut self, tag: &TypeTag) -> (r: Option<&mut V>)
        requires
            old(self).wf(),
        ensures
            final(self).wf(),
            final(self)@.warnings == old(self)@.warnings,
            match r {
                Some(v) => old(self)@.bag.contains_key(tag@) && *v == old(self)@.bag[tag@]
                    && final(self)@.bag == old(self)@.bag.insert(tag@, *final(v)),
                None => !old(self)@.bag.contains_key(tag@) && final(self)@ == old(self)@,
            },
    {
        match &mut self.map {
            Some(m) => m.get_mut(tag),
            None => None,
        }
    }

    /// Stores `val` under `tag`. Replacing a value that was already there is
    /// recorded as a warning, unless `override_is_expected`.
    pub fn insert(&mut self, tag: TypeTag, val: V, override_is_expected: bool)
        requires
            old(self).wf(),
        ensures
            final(self).wf(),
            final(self)@ == old(self)@.insert(tag@, val, override_is_expected),
    {
        let key = tag.duplicate();
        let mut m = match self.map.take() {
            Some(m) => m,
            None => AnyMap::new(),
        };
        let prev = m.insert(tag, val);
        self.map = Some(m);
        if prev.is_some() && !override_is_expected {
            let ghost w = self.warnings@;
            self.warnings.push(key);
            assert(self.warnings@.map_values(|t: TypeTag| t@) =~= w.map_values(|t: TypeTag| t@).push(
                key@,
            ));
        }
        assert(self@.bag =~= old(self)@.bag.insert(tag@, val));
    }

    /// Removes every stored value; the recorded warnings stay.
    pub fn clear(&mut self)
        requires
            old(self).wf(),
        ensures
            final(self).wf(),
            final(self)@ == (Context { bag: Map::<TypeKey, V>::empty(), warnings: old(self)@.warnings }),
    {
        match self.map.take() {
            Some(mut m) => {
                m.clear();
                self.map = Some(m);
            },
            None => {},
        }
    }

    /// The names of the stored types, sorted, each once.
    pub fn collected_types(&self) -> (r: Vec<String>)
        requires
            self.wf(),
        ensures
            lists_type_names(r@.map_values(|s: String| s@), self@.bag.dom()),
    {
        match &self.map {
            Some(m) => m.known_types(),
            None => {
                let r: Vec<String> = Vec::new();
                let ghost names = r@.map_values(|s: String| s@);
                assert(names =~= Seq::<Seq<char>>::empty());
                assert(names.to_set() =~= self@.bag.dom().map(|k: TypeKey| k.name()));
                r
            },
        }
    }

    /// Whether no value is stored.
    pub fn is_empty(&self) -> (r: bool)
        requires
            self.wf(),
        ensures
            r == (self@.bag.dom().len() == 0),
    {
        match &self.map {
            Some(m) => m.is_empty(),
            None => true,
        }
    }

    /// The types whose value was collected twice where that was not expected,
    /// in the order the collisions happened.
    pub fn warnings(&self) -> (r: &Vec<TypeTag>)
        ensures
            r@.map_values(|t: TypeTag| t@) == self@.warnings,
    {
        &self.warnings
    }
}

} // verus!
