use crate::text::same_text;
use vstd::prelude::*;

verus! {

/// A mapping from unique names to values that remembers the order in which
/// the names were first inserted.
///
/// The entries are modelled by two sequences of equal length: `names()`, and
/// `values()`, which holds the views of the values. The invariant of the type
/// is that no name occurs twice. The view is the finite map from each name to
/// the view of its value.
#[derive(Debug)]
pub struct NameMap<V> {
    entries: Vec<(String, V)>,
}

/// The finite map that takes each of `names` to the value at its position.
pub open spec fn map_of<T>(names: Seq<Seq<char>>, values: Seq<T>) -> Map<Seq<char>, T> {
    Map::new(|name: Seq<char>| names.contains(name), |name: Seq<char>| values[names.index_of(name)])
}

/// Where no name occurs twice, a name determines its position and its value.
pub proof fn lemma_position<T>(names: Seq<Seq<char>>, values: Seq<T>, i: int)
    requires
        names.no_duplicates(),
        0 <= i < names.len(),
    ensures
        names.index_of(names[i]) == i,
        map_of(names, values).contains_key(names[i]),
        map_of(names, values)[names[i]] == values[i],
{
    let name = names[i];
    assert(names.contains(name));
    let j = names.index_of(name);
    assert(0 <= j < names.len() && names[j] == name);
}

spec fn names_of<V>(entries: Seq<(String, V)>) -> Seq<Seq<char>> {
    Seq::new(entries.len(), |i: int| entries[i].0@)
}

spec fn values_of<V: View>(entries: Seq<(String, V)>) -> Seq<V::V> {
    Seq::new(entries.len(), |i: int| entries[i].1@)
}

impl<V> NameMap<V> {
    /// The names, in insertion order.
    pub closed spec fn names(&self) -> Seq<Seq<char>> {
        names_of(self.entries@)
    }

    /// No name occurs twice.
    #[verifier::type_invariant]
    pub open spec fn wf(&self) -> bool {
        self.names().no_duplicates()
    }
}

impl<V: View> View for NameMap<V> {
    type V = Map<Seq<char>, V::V>;

    /// The mapping without its order.
    open spec fn view(&self) -> Map<Seq<char>, V::V> {
        map_of(self.names(), self.values())
    }
}

impl<V: View> NameMap<V> {
    /// The views of the values, each at the position of its name.
    pub closed spec fn values(&self) -> Seq<V::V> {
        values_of(self.entries@)
    }

    /// `names()` and `values()` run in parallel.
    pub proof fn lemma_parallel(&self)
        ensures
            self.names().len() == self.values().len(),
    {
    }

    /// An empty map.
    pub fn new() -> (map: Self)
        ensures
            map.names() == Seq::<Seq<char>>::empty(),
            map.values() == Seq::<V::V>::empty(),
            map@ == Map::<Seq<char>, V::V>::empty(),
    {
        let map = NameMap { entries: Vec::new() };
        assert(map.names() =~= Seq::<Seq<char>>::empty());
        assert(map.values() =~= Seq::<V::V>::empty());
        assert(map@ =~= Map::<Seq<char>, V::V>::empty());
        map
    }

    /// The number of entries.
    pub fn len(&self) -> (n: usize)
        ensures
            n == self.names().len(),
            n == self.values().len(),
    {
        self.entries.len()
    }

    /// The name at position `i`.
    pub fn name_at(&self, i: usize) -> (name: &String)
        requires
            i < self.names().len(),
        ensures
            name@ == self.names()[i as int],
    {
        &self.entries[i].0
    }

    /// The value at position `i`.
    pub fn value_at(&self, i: usize) -> (value: &V)
        requires
            i < self.values().len(),
        ensures
            value@ == self.values()[i as int],
    {
        &self.entries[i].1
    }

    /// The position of `name`, if the map holds it.
    pub fn position(&self, name: &str) -> (found: Option<usize>)
        ensures
            match found {
                Some(i) => i < self.names().len() && self.names()[i as int] == name@
                    && self.names().index_of(name@) == i,
                None => !self.names().contains(name@),
            },
    {
        proof {
            use_type_invariant(self);
        }
        let mut i: usize = 0;
        while i < self.entries.len()
            invariant
                self.wf(),
                i <= self.entries@.len(),
                forall|j: int| 0 <= j < i ==> self.names()[j] != name@,
            decreases self.entries@.len() - i,
        {
            if same_text(self.entries[i].0.as_str(), name) {
                proof {
                    lemma_position(self.names(), self.values(), i as int);
                }
                return Some(i);
            }
            i += 1;
        }
        None
    }

    /// Whether the map holds `name`.
    pub fn contains_key(&self, name: &str) -> (held: bool)
        ensures
            held == self@.contains_key(name@),
    {
        self.position(name).is_some()
    }

    /// The value stored under `name`.
    pub fn get(&self, name: &str) -> (found: Option<&V>)
        ensures
            match found {
                Some(value) => self@.contains_key(name@) && value@ == self@[name@],
                None => !self@.contains_key(name@),
            },
    {
        match self.position(name) {
            Some(i) => Some(&self.entries[i].1),
            None => None,
        }
    }

    /// Appends an entry under a name that the map does not hold yet.
    pub(crate) fn push(&mut self, name: String, value: V)
        requires
            !old(self).names().contains(name@),
        ensures
            final(self).names() == old(self).names().push(name@),
            final(self).values() == old(self).values().push(value@),
    {
        proof {
            use_type_invariant(&*self);
        }
        let ghost before = *self;
        let mut entries: Vec<(String, V)> = Vec::new();
        core::mem::swap(&mut self.entries, &mut entries);
        entries.push((name, value));
        assert(names_of(entries@) =~= before.names().push(name@));
        self.entries = entries;
        assert(self.values() =~= before.values().push(value@));
    }

    /// Stores `value` under `name`. A name that the map already holds keeps
    /// its position and hands back its former value; a new name goes to the
    /// end.
    pub fn insert(&mut self, name: String, value: V) -> (former: Option<V>)
        ensures
            final(self)@ == old(self)@.insert(name@, value@),
            match former {
                Some(v) => {
                    &&& old(self)@.contains_key(name@)
                    &&& v@ == old(self)@[name@]
                    &&& final(self).names() == old(self).names()
                    &&& final(self).values() == old(self).values().update(
                        old(self).names().index_of(name@),
                        value@,
                    )
                },
                None => {
                    &&& !old(self)@.contains_key(name@)
                    &&& final(self).names() == old(self).names().push(name@)
                    &&& final(self).values() == old(self).values().push(value@)
                },
            },
    {
        proof {
            use_type_invariant(&*self);
        }
        let found = self.position(name.as_str());
        match found {
            Some(i) => {
                let ghost before = *self;
                let mut entries: Vec<(String, V)> = Vec::new();
                core::mem::swap(&mut self.entries, &mut entries);
                let (kept, former) = entries.remove(i);
                entries.insert(i, (kept, value));
                assert(names_of(entries@) =~= before.names());
                self.entries = entries;
                proof {
                    assert(self.values() =~= before.values().update(i as int, value@));
                    assert forall|n: Seq<char>| #[trigger] self@.contains_key(n) implies self@[n]
                        == before@.insert(name@, value@)[n] by {
                        let j = self.names().index_of(n);
                        lemma_position(before.names(), before.values(), j);
                    }
                    assert(self@ =~= before@.insert(name@, value@));
                }
                Some(former)
            },
            None => {
                let ghost before = *self;
                let ghost name_text = name@;
                self.push(name, value);
                proof {
                    let last = before.names().len() as int;
                    let added = self.values()[last];
                    assert(self.names()[last] == name_text);
                    assert forall|n: Seq<char>| #[trigger] self@.contains_key(n) implies self@[n]
                        == before@.insert(name_text, added)[n] by {
                        let j = self.names().index_of(n);
                        if j < last {
                            lemma_position(before.names(), before.values(), j);
                        }
                    }
                    assert forall|n: Seq<char>| before@.insert(name_text, added).contains_key(n)
                        implies #[trigger] self@.contains_key(n) by {
                        if n == name_text {
                        } else {
                            let j = before.names().index_of(n);
                            assert(self.names()[j] == n);
                        }
                    }
                    assert(self@ =~= before@.insert(name_text, added));
                }
                None
            },
        }
    }

    /// Takes `name` and its value out of the map; the other entries keep
    /// their order.
    pub fn remove(&mut self, name: &str) -> (former: Option<V>)
        ensures
            final(self)@ == old(self)@.remove(name@),
            match former {
                Some(v) => {
                    &&& old(self)@.contains_key(name@)
                    &&& v@ == old(self)@[name@]
                    &&& final(self).names() == old(self).names().remove(
                        old(self).names().index_of(name@),
                    )
                    &&& final(self).values() == old(self).values().remove(
                        old(self).names().index_of(name@),
                    )
                },
                None => {
                    &&& !old(self)@.contains_key(name@)
                    &&& final(self).names() == old(self).names()
                    &&& final(self).values() == old(self).values()
                },
            },
    {
        proof {
            use_type_invariant(&*self);
        }
        let found = self.position(name);
        match found {
            Some(i) => {
                let ghost before = *self;
                let mut entries: Vec<(String, V)> = Vec::new();
                core::mem::swap(&mut self.entries, &mut entries);
                let (_, former) = entries.remove(i);
                assert(names_of(entries@) =~= before.names().remove(i as int));
                self.entries = entries;
                proof {
                    assert(self.values() =~= before.values().remove(i as int));
                    assert forall|n: Seq<char>| #[trigger] self@.contains_key(n) implies n != name@
                        && before@.contains_key(n) && self@[n] == before@[n] by {
                        let j = self.names().index_of(n);
                        if j < i {
                            lemma_position(before.names(), before.values(), j);
                        } else {
                            lemma_position(before.names(), before.values(), j + 1);
                        }
                    }
                    assert forall|n: Seq<char>| n != name@ && before@.contains_key(n)
                        implies #[trigger] self@.contains_key(n) by {
                        let j = before.names().index_of(n);
                        if j < i {
                            assert(self.names()[j] == n);
                        } else {
                            assert(self.names()[j - 1] == n);
                        }
                    }
                    assert(self@ =~= before@.remove(name@));
                }
                Some(former)
            },
            None => {
                assert(self@ =~= old(self)@.remove(name@));
                None
            },
        }
    }
}

impl<V: View + Clone> NameMap<V> {
    /// A copy of the map, entry for entry, for values whose clones have the
    /// view of what they were cloned from.
    pub(crate) fn duplicate(&self) -> (copy: Self)
        requires
            forall|a: V, b: V| call_ensures(V::clone, (&a,), b) ==> a@ == b@,
        ensures
            copy.names() == self.names(),
            copy.values() == self.values(),
            copy@ == self@,
    {
        proof {
            use_type_invariant(self);
        }
        let mut entries: Vec<(String, V)> = Vec::new();
        let n = self.entries.len();
        let mut i: usize = 0;
        while i < n
            invariant
                i <= n,
                n == self.entries@.len(),
                entries@.len() == i,
                forall|a: V, b: V| call_ensures(V::clone, (&a,), b) ==> a@ == b@,
                names_of(entries@) == names_of(self.entries@).subrange(0, i as int),
                values_of(entries@) == values_of(self.entries@).subrange(0, i as int),
            decreases n - i,
        {
            let name = self.entries[i].0.clone();
            let value = self.entries[i].1.clone();
            let ghost before = entries@;
            entries.push((name, value));
            proof {
                let names = names_of(self.entries@).subrange(0, i + 1);
                let values = values_of(self.entries@).subrange(0, i + 1);
                assert forall|k: int| 0 <= k < i + 1 implies names_of(entries@)[k] == names[k]
                    && values_of(entries@)[k] == values[k] by {
                    if k < i {
                        assert(names_of(before)[k] == names_of(self.entries@).subrange(
                            0,
                            i as int,
                        )[k]);
                        assert(values_of(before)[k] == values_of(self.entries@).subrange(
                            0,
                            i as int,
                        )[k]);
                    }
                }
                assert(names_of(entries@) =~= names);
                assert(values_of(entries@) =~= values);
            }
            i += 1;
        }
        assert(names_of(entries@) =~= self.names());
        assert(values_of(entries@) =~= self.values());
        NameMap { entries }
    }
}

} // verus!
