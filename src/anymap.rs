//! A store that holds at most one value per type tag.
use vstd::prelude::*;

use crate::tag::{lemma_text_le_total, lemma_text_le_trans, text_le, text_le_exec, TypeKey, TypeTag};

verus! {

/// Values of different types, each stored under its type tag.
///
/// The entries are kept in the order of their rendered type names, so the
/// names of the stored types come out sorted.
pub struct AnyMap<V> {
    entries: Vec<(TypeTag, V)>,
}

/// The values of a list of entries, by key.
pub closed spec fn entries_view<V>(entries: Seq<(TypeTag, V)>) -> Map<TypeKey, V> {
    Map::new(
        |k: TypeKey| exists|i: int| 0 <= i < entries.len() && (#[trigger] entries[i]).0@ == k,
        |k: TypeKey| entries[choose|i: int| 0 <= i < entries.len() && (#[trigger] entries[i]).0@ == k].1,
    )
}

/// Whether no two entries share a key.
pub open spec fn unique_keys<V>(entries: Seq<(TypeTag, V)>) -> bool {
    forall|i: int, j: int|
        0 <= i < j < entries.len() ==> (#[trigger] entries[i]).0@ != (#[trigger] entries[j]).0@
}

pub proof fn lemma_entries_view<V>(entries: Seq<(TypeTag, V)>)
    requires
        unique_keys(entries),
    ensures
        forall|i: int|
            0 <= i < entries.len() ==> entries_view(entries).contains_key((#[trigger] entries[i]).0@)
                && entries_view(entries)[entries[i].0@] == entries[i].1,
        forall|k: TypeKey|
            #[trigger] entries_view(entries).contains_key(k) ==> exists|i: int|
                0 <= i < entries.len() && (#[trigger] entries[i]).0@ == k,
{
    assert forall|i: int| 0 <= i < entries.len() implies entries_view(entries).contains_key(
        (#[trigger] entries[i]).0@,
    ) && entries_view(entries)[entries[i].0@] == entries[i].1 by {
        let k = entries[i].0@;
        let j = choose|j: int| 0 <= j < entries.len() && (#[trigger] entries[j]).0@ == k;
        if j < i {
            assert(entries[j].0@ != entries[i].0@);
        } else if j > i {
            assert(entries[i].0@ != entries[j].0@);
        }
    }
}

/// Inserting an entry with a new key stores its value under that key.
pub proof fn lemma_entries_view_insert<V>(entries: Seq<(TypeTag, V)>, p: int, e: (TypeTag, V))
    requires
        unique_keys(entries),
        0 <= p <= entries.len(),
        forall|j: int| 0 <= j < entries.len() ==> (#[trigger] entries[j]).0@ != e.0@,
    ensures
        unique_keys(entries.insert(p, e)),
        entries_view(entries.insert(p, e)) == entries_view(entries).insert(e.0@, e.1),
{
    let after = entries.insert(p, e);
    let k = e.0@;
    assert(unique_keys(after)) by {
        assert forall|a: int, b: int| 0 <= a < b < after.len() implies (#[trigger] after[a]).0@
            != (#[trigger] after[b]).0@ by {
            if a < p && b > p {
                assert(after[b] == entries[b - 1]);
            } else if a > p {
                assert(after[a] == entries[a - 1]);
                assert(after[b] == entries[b - 1]);
            } else if a == p {
                assert(after[b] == entries[b - 1]);
            }
        }
    }
    lemma_entries_view(entries);
    lemma_entries_view(after);
    assert(entries_view(after) =~= entries_view(entries).insert(k, e.1)) by {
        assert forall|k2: TypeKey| #[trigger] entries_view(after).contains_key(k2) == entries_view(
            entries,
        ).insert(k, e.1).contains_key(k2) by {
            if entries_view(after).contains_key(k2) {
                let j = choose|j: int| 0 <= j < after.len() && (#[trigger] after[j]).0@ == k2;
                if j < p {
                    assert(entries[j].0@ == k2);
                } else if j > p {
                    assert(entries[j - 1].0@ == k2);
                }
            }
            if entries_view(entries).contains_key(k2) {
                let j = choose|j: int| 0 <= j < entries.len() && (#[trigger] entries[j]).0@ == k2;
                if j < p {
                    assert(after[j].0@ == k2);
                } else {
                    assert(after[j + 1].0@ == k2);
                }
            }
            if k2 == k {
                assert(after[p].0@ == k2);
            }
        }
        assert forall|k2: TypeKey| #[trigger] entries_view(after).contains_key(k2) implies entries_view(
            after,
        )[k2] == entries_view(entries).insert(k, e.1)[k2] by {
            let j = choose|j: int| 0 <= j < after.len() && (#[trigger] after[j]).0@ == k2;
            assert(entries_view(after)[after[j].0@] == after[j].1);
            if j < p {
                assert(entries_view(entries)[entries[j].0@] == entries[j].1);
            } else if j > p {
                assert(after[j] == entries[j - 1]);
                assert(entries_view(entries)[entries[j - 1].0@] == entries[j - 1].1);
            }
        }
    }
}

/// Replacing the value of one entry replaces the value of its key.
pub proof fn lemma_entries_view_update<V>(entries: Seq<(TypeTag, V)>, i: int, v: V)
    requires
        unique_keys(entries),
        0 <= i < entries.len(),
    ensures
        unique_keys(entries.update(i, (entries[i].0, v))),
        entries_view(entries.update(i, (entries[i].0, v))) == entries_view(entries).insert(
            entries[i].0@,
            v,
        ),
{
    let after = entries.update(i, (entries[i].0, v));
    assert(unique_keys(after)) by {
        assert forall|a: int, b: int| 0 <= a < b < after.len() implies (#[trigger] after[a]).0@
            != (#[trigger] after[b]).0@ by {
            assert(entries[a].0@ != entries[b].0@);
        }
    }
    lemma_entries_view(entries);
    lemma_entries_view(after);
    let k = entries[i].0@;
    assert(entries_view(after) =~= entries_view(entries).insert(k, v)) by {
        assert forall|k2: TypeKey| #[trigger] entries_view(after).contains_key(k2) == entries_view(
            entries,
        ).insert(k, v).contains_key(k2) by {
            if entries_view(after).contains_key(k2) {
                let j = choose|j: int| 0 <= j < after.len() && (#[trigger] after[j]).0@ == k2;
                assert(entries[j].0@ == k2);
            }
            if entries_view(entries).contains_key(k2) {
                let j = choose|j: int| 0 <= j < entries.len() && (#[trigger] entries[j]).0@ == k2;
                assert(after[j].0@ == k2);
            }
            if k2 == k {
                assert(after[i].0@ == k2);
            }
        }
        assert forall|k2: TypeKey| #[trigger] entries_view(after).contains_key(k2) implies entries_view(
            after,
        )[k2] == entries_view(entries).insert(k, v)[k2] by {
            let j = choose|j: int| 0 <= j < after.len() && (#[trigger] after[j]).0@ == k2;
            assert(entries_view(after)[after[j].0@] == after[j].1);
            if j != i {
                assert(entries_view(entries)[entries[j].0@] == entries[j].1);
            }
        }
    }
}

/// Whether `names` lists the names of the types in `dom`, each once, in the
/// order of `text_le`.
pub open spec fn lists_type_names(names: Seq<Seq<char>>, dom: Set<TypeKey>) -> bool {
    &&& names.no_duplicates()
    &&& forall|a: int, b: int| 0 <= a < b < names.len() ==> text_le(#[trigger] names[a], #[trigger] names[b])
    &&& names.to_set() == dom.map(|k: TypeKey| k.name())
}

/// Whether `names` holds `name`.
fn contains_name(names: &Vec<String>, name: &String) -> (r: bool)
    ensures
        r == names@.map_values(|s: String| s@).contains(name@),
{
    let ghost all = names@.map_values(|s: String| s@);
    let mut i: usize = 0;
    while i < names.len()
        invariant
            i <= names.len(),
            all == names@.map_values(|s: String| s@),
            forall|j: int| 0 <= j < i ==> all[j] != name@,
        decreases names.len() - i,
    {
        if names[i] == *name {
            assert(all[i as int] == name@);
            return true;
        }
        i = i + 1;
    }
    false
}

proof fn lemma_sorted_from(keys: Seq<TypeKey>, a: int, b: int)
    requires
        sorted_by_name(keys),
        0 <= a < b < keys.len(),
    ensures
        text_le(keys[a].name(), keys[b].name()),
    decreases b - a,
{
    if b > a + 1 {
        lemma_sorted_from(keys, a, b - 1);
        lemma_text_le_trans(keys[a].name(), keys[b - 1].name(), keys[b].name());
    }
}

/// Keys listed in the order of their names are in that order pairwise.
pub proof fn lemma_sorted_pairwise(keys: Seq<TypeKey>)
    requires
        sorted_by_name(keys),
    ensures
        forall|a: int, b: int|
            0 <= a < b < keys.len() ==> text_le(
                (#[trigger] keys[a]).name(),
                (#[trigger] keys[b]).name(),
            ),
{
    assert forall|a: int, b: int| 0 <= a < b < keys.len() implies text_le(
        (#[trigger] keys[a]).name(),
        (#[trigger] keys[b]).name(),
    ) by {
        lemma_sorted_from(keys, a, b);
    }
}

/// Whether the keys are listed in the order of their names.
pub open spec fn sorted_by_name(keys: Seq<TypeKey>) -> bool {
    forall|i: int| 0 <= i < keys.len() - 1 ==> text_le(#[trigger] keys[i].name(), keys[i + 1].name())
}

impl<V> View for AnyMap<V> {
    type V = Map<TypeKey, V>;

    closed spec fn view(&self) -> Map<TypeKey, V> {
        entries_view(self.entries@)
    }
}

impl<V> Default for AnyMap<V> {
    fn default() -> (r: AnyMap<V>)
        ensures
            r.wf(),
            r@ == Map::<TypeKey, V>::empty(),
    {
        AnyMap::new()
    }
}

impl<V> AnyMap<V> {
    /// The keys of the stored values, in the order of their names.
    pub closed spec fn keys(&self) -> Seq<TypeKey> {
        self.entries@.map_values(|e: (TypeTag, V)| e.0@)
    }

    pub closed spec fn wf(&self) -> bool {
        &&& unique_keys(self.entries@)
        &&& sorted_by_name(self.keys())
    }

    pub proof fn lemma_keys(&self)
        requires
            self.wf(),
        ensures
            self.keys().no_duplicates(),
            self.keys().to_set() == self@.dom(),
            self.keys().len() == self@.dom().len(),
            sorted_by_name(self.keys()),
    {
        let keys = self.keys();
        lemma_entries_view(self.entries@);
        assert(keys.to_set() =~= self@.dom()) by {
            assert forall|k: TypeKey| keys.to_set().contains(k) implies self@.dom().contains(k) by {
                let i = choose|i: int| 0 <= i < keys.len() && keys[i] == k;
                assert(self.entries@[i].0@ == k);
            }
            assert forall|k: TypeKey| self@.dom().contains(k) implies keys.to_set().contains(k) by {
                let i = choose|i: int| 0 <= i < self.entries.len() && (#[trigger] self.entries@[i]).0@ == k;
                assert(keys[i] == k);
            }
        }
        assert(keys.no_duplicates()) by {
            assert forall|i: int, j: int| 0 <= i < keys.len() && 0 <= j < keys.len() && i != j
                implies keys[i] != keys[j] by {
                if i < j {
                    assert(self.entries@[i].0@ != self.entries@[j].0@);
                } else {
                    assert(self.entries@[j].0@ != self.entries@[i].0@);
                }
            }
        }
        keys.unique_seq_to_set();
    }

    /// An empty store.
    pub fn new() -> (r: AnyMap<V>)
        ensures
            r.wf(),
            r@ == Map::<TypeKey, V>::empty(),
    {
        let r = AnyMap { entries: Vec::new() };
        assert(r@ =~= Map::<TypeKey, V>::empty());
        r
    }

    /// The position of the entry stored under `tag`, if any.
    fn find(&self, tag: &TypeTag) -> (r: Option<usize>)
        requires
            self.wf(),
        ensures
            match r {
                Some(i) => i < self.entries.len() && self.entries@[i as int].0@ == tag@,
                None => !self@.contains_key(tag@),
            },
    {
        proof {
            lemma_entries_view(self.entries@);
        }
        let mut i: usize = 0;
        while i < self.entries.len()
            invariant
                self.wf(),
                i <= self.entries.len(),
                forall|j: int| 0 <= j < i ==> (#[trigger] self.entries@[j]).0@ != tag@,
            decreases self.entries.len() - i,
        {
            if self.entries[i].0.same_type(tag) {
                return Some(i);
            }
            i = i + 1;
        }
        None
    }

    /// The value stored under `tag`, if any.
    pub fn get(&self, tag: &TypeTag) -> (r: Option<&V>)
        requires
            self.wf(),
        ensures
            match r {
                Some(v) => self@.contains_key(tag@) && *v == self@[tag@],
                None => !self@.contains_key(tag@),
            },
    {
        proof {
            lemma_entries_view(self.entries@);
        }
        match self.find(tag) {
            Some(i) => Some(&self.entries[i].1),
            None => None,
        }
    }

    /// The value stored under `tag`, if any, to change in place.
    pub fn get_mut(&mut self, tag: &TypeTag) -> (r: Option<&mut V>)
        requires
            old(self).wf(),
        ensures
            final(self).wf(),
            match r {
                Some(v) => old(self)@.contains_key(tag@) && *v == old(self)@[tag@] && final(self)@
                    == old(self)@.insert(tag@, *final(v)),
                None => !old(self)@.contains_key(tag@) && final(self)@ == old(self)@,
            },
    {
        proof {
            lemma_entries_view(self.entries@);
        }
        match self.find(tag) {
            Some(i) => {
                let ghost before = self.entries@;
                let entry = &mut self.entries[i];
                let value = &mut entry.1;
                proof {
                    lemma_entries_view_update(before, i as int, *final(value));
                    assert(before.update(i as int, (before[i as int].0, *final(value))).map_values(
                        |e: (TypeTag, V)| e.0@,
                    ) =~= before.map_values(|e: (TypeTag, V)| e.0@));
                }
                Some(value)
            },
            None => None,
        }
    }

    /// Stores `val` under `tag` and hands back the value it replaces, if any.
    pub fn insert(&mut self, tag: TypeTag, val: V) -> (r: Option<V>)
        requires
            old(self).wf(),
        ensures
            final(self).wf(),
            final(self)@ == old(self)@.insert(tag@, val),
            match r {
                Some(prev) => old(self)@.contains_key(tag@) && prev == old(self)@[tag@],
                None => !old(self)@.contains_key(tag@),
            },
    {
        let ghost k = tag@;
        let ghost before = self.entries@;
        match self.find(&tag) {
            Some(i) => {
                let (old_tag, prev) = self.entries.remove(i);
                self.entries.insert(i, (old_tag, val));
                proof {
                    lemma_entries_view(before);
                    lemma_entries_view_update(before, i as int, val);
                }
                assert(self.entries@ =~= before.update(i as int, (before[i as int].0, val)));
                assert(self.keys() =~= old(self).keys());
                Some(prev)
            },
            None => {
                let name = tag.name();
                let mut p: usize = 0;
                while p < self.entries.len()
                    invariant
                        self.wf(),
                        self.entries@ == before,
                        p <= self.entries.len(),
                        name@ == k.name(),
                        forall|j: int| 0 <= j < p ==> text_le(#[trigger] before[j].0@.name(), k.name()),
                    ensures
                        p <= before.len(),
                        p < before.len() ==> !text_le(before[p as int].0@.name(), k.name()),
                        forall|j: int| 0 <= j < p ==> text_le(#[trigger] before[j].0@.name(), k.name()),
                    decreases self.entries.len() - p,
                {
                    let other = self.entries[p].0.name();
                    if !text_le_exec(other.as_str(), name.as_str()) {
                        break;
                    }
                    p = p + 1;
                }
                proof {
                    if p < before.len() {
                        lemma_text_le_total(before[p as int].0@.name(), k.name());
                    }
                }
                self.entries.insert(p, (tag, val));
                let ghost after = self.entries@;
                proof {
                    lemma_entries_view_insert(before, p as int, after[p as int]);
                }
                let ghost keys = self.keys();
                assert forall|j: int| 0 <= j < keys.len() - 1 implies text_le(
                    #[trigger] keys[j].name(),
                    keys[j + 1].name(),
                ) by {
                    let old_keys = old(self).keys();
                    assert(keys[p as int] == k);
                    if j + 1 < p {
                        assert(keys[j] == old_keys[j] && keys[j + 1] == old_keys[j + 1]);
                        assert(text_le(old_keys[j].name(), old_keys[j + 1].name()));
                    } else if j + 1 == p {
                        assert(keys[j] == before[j].0@);
                        assert(text_le(before[j].0@.name(), k.name()));
                    } else if j == p {
                        assert(keys[j + 1] == before[j].0@);
                    } else {
                        assert(keys[j] == old_keys[j - 1] && keys[j + 1] == old_keys[j]);
                        assert(text_le(old_keys[j - 1].name(), old_keys[j].name()));
                    }
                }
                None
            },
        }
    }

    /// The rendered names of the stored types, sorted, each once.
    pub fn known_types(&self) -> (r: Vec<String>)
        requires
            self.wf(),
        ensures
            lists_type_names(r@.map_values(|s: String| s@), self@.dom()),
    {
        let ghost keys = self.keys();
        proof {
            self.lemma_keys();
            lemma_sorted_pairwise(keys);
        }
        let mut out: Vec<String> = Vec::new();
        let mut i: usize = 0;
        while i < self.entries.len()
            invariant
                i <= self.entries.len(),
                keys == self.keys(),
                forall|a: int, b: int|
                    0 <= a < b < keys.len() ==> text_le(
                        (#[trigger] keys[a]).name(),
                        (#[trigger] keys[b]).name(),
                    ),
                out@.map_values(|s: String| s@).no_duplicates(),
                forall|a: int, b: int|
                    0 <= a < b < out.len() ==> text_le(
                        (#[trigger] out@[a])@,
                        (#[trigger] out@[b])@,
                    ),
                forall|a: int|
                    0 <= a < out.len() ==> exists|m: int|
                        0 <= m < i && (#[trigger] out@[a])@ == (#[trigger] keys[m]).name(),
                forall|m: int|
                    0 <= m < i ==> out@.map_values(|s: String| s@).contains(
                        (#[trigger] keys[m]).name(),
                    ),
            decreases self.entries.len() - i,
        {
            let ghost prev = out@;
            let name = self.entries[i].0.name();
            assert(name@ == keys[i as int].name());
            if !contains_name(&out, &name) {
                out.push(name);
                assert(out@.map_values(|s: String| s@) =~= prev.map_values(|s: String| s@).push(
                    name@,
                ));
                assert forall|a: int, b: int| 0 <= a < b < out.len() implies text_le(
                    (#[trigger] out@[a])@,
                    (#[trigger] out@[b])@,
                ) by {
                    if b == out.len() - 1 {
                        assert(out@[a] == prev[a]);
                        let m = choose|m: int| 0 <= m < i && prev[a]@ == (#[trigger] keys[m]).name();
                        assert(text_le(keys[m].name(), keys[i as int].name()));
                    } else {
                        assert(out@[a] == prev[a] && out@[b] == prev[b]);
                    }
                }
                assert forall|a: int| 0 <= a < out.len() implies exists|m: int|
                    0 <= m < i + 1 && (#[trigger] out@[a])@ == (#[trigger] keys[m]).name() by {
                    if a < prev.len() {
                        assert(out@[a] == prev[a]);
                    } else {
                        assert(out@[a]@ == keys[i as int].name());
                    }
                }
                assert forall|m: int| 0 <= m < i + 1 implies out@.map_values(|s: String| s@).contains(
                    (#[trigger] keys[m]).name(),
                ) by {
                    let prev_names = prev.map_values(|s: String| s@);
                    if m < i {
                        assert(prev_names.contains(keys[m].name()));
                        let j = choose|j: int| 0 <= j < prev_names.len() && prev_names[j] == keys[m].name();
                        assert(out@.map_values(|s: String| s@)[j] == keys[m].name());
                    } else {
                        assert(out@.map_values(|s: String| s@)[prev.len() as int] == name@);
                    }
                }
            }
            i = i + 1;
        }
        proof {
            let names = out@.map_values(|s: String| s@);
            assert forall|a: int, b: int| 0 <= a < b < names.len() implies text_le(
                #[trigger] names[a],
                #[trigger] names[b],
            ) by {
                assert(names[a] == out@[a]@ && names[b] == out@[b]@);
            }
            let named = self@.dom().map(|k: TypeKey| k.name());
            assert forall|x: Seq<char>| names.to_set().contains(x) implies named.contains(x) by {
                let a = choose|a: int| 0 <= a < names.len() && names[a] == x;
                assert(names[a] == out@[a]@);
                let m = choose|m: int| 0 <= m < i && (#[trigger] out@[a])@ == (#[trigger] keys[m]).name();
                assert(keys.to_set().contains(keys[m]));
                assert(self@.dom().contains(keys[m]) && keys[m].name() == x);
            }
            assert forall|x: Seq<char>| named.contains(x) implies names.to_set().contains(x) by {
                let k = choose|k: TypeKey| self@.dom().contains(k) && k.name() == x;
                assert(keys.to_set().contains(k));
                let m = choose|m: int| 0 <= m < keys.len() && keys[m] == k;
                assert(names.contains(keys[m].name()));
            }
            assert(names.to_set() =~= named);
        }
        out
    }

    /// Removes every value.
    pub fn clear(&mut self)
        ensures
            final(self).wf(),
            final(self)@ == Map::<TypeKey, V>::empty(),
    {
        self.entries.clear();
        assert(self@ =~= Map::<TypeKey, V>::empty());
    }

    /// Whether no value is stored.
    pub fn is_empty(&self) -> (r: bool)
        requires
            self.wf(),
        ensures
            r == (self@.dom().len() == 0),
    {
        proof {
            self.lemma_keys();
        }
        self.entries.len() == 0
    }

    /// The number of stored values.
    pub fn len(&self) -> (r: usize)
        requires
            self.wf(),
        ensures
            r == self@.dom().len(),
    {
        proof {
            self.lemma_keys();
        }
        self.entries.len()
    }
}

} // verus!
