//! Maps and sets keyed by names, kept as lists in which no key occurs twice.

use vstd::prelude::*;

verus! {

/// A finite map from names to values. Its deep view is the mathematical map
/// from each key's characters to the deep view of the value stored under it.
#[derive(Debug)]
pub struct NameMap<V> {
    entries: Vec<(String, V)>,
}

impl<V> NameMap<V> {
    /// No key occurs twice.
    #[verifier::type_invariant]
    closed spec fn inv(&self) -> bool {
        forall|i: int, j: int|
            0 <= i < self.entries@.len() && 0 <= j < self.entries@.len() && i != j
                ==> self.entries@[i].0@ != self.entries@[j].0@
    }

    /// Whether `key` is a key of the map.
    pub closed spec fn has(&self, key: Seq<char>) -> bool {
        exists|i: int| 0 <= i < self.entries@.len() && self.entries@[i].0@ == key
    }

    closed spec fn index_of(&self, key: Seq<char>) -> int {
        choose|i: int| 0 <= i < self.entries@.len() && self.entries@[i].0@ == key
    }

    closed spec fn key_seq(&self) -> Seq<Seq<char>> {
        Seq::new(self.entries@.len(), |i: int| self.entries@[i].0@)
    }
}

impl<V: DeepView> NameMap<V> {
    /// Moves the entries out and leaves the map empty.
    fn take_entries(&mut self) -> (r: Vec<(String, V)>)
        ensures
            r == old(self).entries,
            final(self).entries@.len() == 0,
    {
        let mut taken = NameMap { entries: Vec::new() };
        core::mem::swap(self, &mut taken);
        taken.entries
    }


    /// The map without entries.
    pub fn new() -> (r: Self)
        ensures
            r.deep_view() == Map::<Seq<char>, V::V>::empty(),
    {
        let r = NameMap { entries: Vec::new() };
        assert(r.deep_view() =~= Map::<Seq<char>, V::V>::empty());
        r
    }

    fn find(&self, key: &str) -> (r: Option<usize>)
        ensures
            match r {
                Some(i) => i < self.entries@.len() && self.entries@[i as int].0@ == key@
                    && self.has(key@) && self.index_of(key@) == i,
                None => !self.has(key@),
            },
    {
        proof {
            use_type_invariant(self);
        }
        let probe = String::from_str(key);
        let mut i: usize = 0;
        while i < self.entries.len()
            invariant
                i <= self.entries@.len(),
                probe@ == key@,
                self.inv(),
                forall|j: int| 0 <= j < i ==> self.entries@[j].0@ != key@,
            decreases self.entries@.len() - i,
        {
            if self.entries[i].0 == probe {
                assert(self.entries@[i as int].0@ == key@);
                assert(self.has(key@));
                return Some(i);
            }
            i = i + 1;
        }
        None
    }

    /// Whether a value is stored under `key`.
    pub fn contains_key(&self, key: &str) -> (r: bool)
        ensures
            r == self.deep_view().contains_key(key@),
    {
        self.find(key).is_some()
    }

    /// The value stored under `key`, if there is one.
    pub fn get(&self, key: &str) -> (r: Option<&V>)
        ensures
            match r {
                Some(v) => self.deep_view().contains_key(key@) && v.deep_view()
                    == self.deep_view()[key@],
                None => !self.deep_view().contains_key(key@),
            },
    {
        match self.find(key) {
            Some(i) => Some(&self.entries[i].1),
            None => None,
        }
    }

    /// Stores `value` under `key`, in place of what was stored there.
    pub fn insert(&mut self, key: String, value: V)
        ensures
            final(self).deep_view() == old(self).deep_view().insert(key@, value.deep_view()),
    {
        proof {
            use_type_invariant(&*self);
        }
        let ghost before = *self;
        let ghost dv = value.deep_view();
        let ghost k = key@;
        let found = self.find(key.as_str());
        let mut entries = self.take_entries();
        match found {
            Some(i) => {
                entries.set(i, (key, value));
                *self = NameMap { entries };
                proof {
                    assert forall|q: Seq<char>| self.has(q) == (before.has(q) || q == k) by {
                        if before.has(q) {
                            let j = before.index_of(q);
                            assert(self.entries@[j].0@ == q);
                        }
                        if q == k {
                            assert(self.entries@[i as int].0@ == q);
                        }
                        if self.has(q) {
                            let j = self.index_of(q);
                            if j != i {
                                assert(before.entries@[j].0@ == q);
                            }
                        }
                    }
                    assert forall|q: Seq<char>| self.has(q) implies #[trigger] self.deep_view()[q]
                        == before.deep_view().insert(k, dv)[q] by {
                        let j = self.index_of(q);
                        if j != i {
                            assert(before.entries@[j].0@ == q);
                            assert(before.index_of(q) == j);
                        }
                    }
                    assert(self.deep_view() =~= before.deep_view().insert(k, dv));
                }
            },
            None => {
                entries.push((key, value));
                *self = NameMap { entries };
                proof {
                    let n = before.entries@.len() as int;
                    assert forall|q: Seq<char>| self.has(q) == (before.has(q) || q == k) by {
                        if before.has(q) {
                            let j = before.index_of(q);
                            assert(self.entries@[j].0@ == q);
                        }
                        if q == k {
                            assert(self.entries@[n].0@ == q);
                        }
                        if self.has(q) {
                            let j = self.index_of(q);
                            if j != n {
                                assert(before.entries@[j].0@ == q);
                            }
                        }
                    }
                    assert forall|q: Seq<char>| self.has(q) implies #[trigger] self.deep_view()[q]
                        == before.deep_view().insert(k, dv)[q] by {
                        let j = self.index_of(q);
                        if j != n {
                            assert(before.entries@[j].0@ == q);
                            assert(before.index_of(q) == j);
                        }
                    }
                    assert(self.deep_view() =~= before.deep_view().insert(k, dv));
                }
            },
        }
    }

    /// Takes out what is stored under `key`, if anything is.
    pub fn remove(&mut self, key: &str) -> (r: Option<V>)
        ensures
            final(self).deep_view() == old(self).deep_view().remove(key@),
            match r {
                Some(v) => old(self).deep_view().contains_key(key@) && v.deep_view() == old(
                    self,
                ).deep_view()[key@],
                None => !old(self).deep_view().contains_key(key@),
            },
    {
        proof {
            use_type_invariant(&*self);
        }
        let ghost before = *self;
        match self.find(key) {
            Some(i) => {
                let mut entries = self.take_entries();
                let taken = entries.remove(i);
                *self = NameMap { entries };
                proof {
                    assert forall|q: Seq<char>| self.has(q) == (before.has(q) && q != key@) by {
                        if before.has(q) && q != key@ {
                            let j = before.index_of(q);
                            if j < i {
                                assert(self.entries@[j].0@ == q);
                            } else {
                                assert(self.entries@[j - 1].0@ == q);
                            }
                        }
                        if self.has(q) {
                            let j = self.index_of(q);
                            if j < i {
                                assert(before.entries@[j].0@ == q);
                            } else {
                                assert(before.entries@[j + 1].0@ == q);
                            }
                        }
                    }
                    assert forall|q: Seq<char>| self.has(q) implies #[trigger] self.deep_view()[q]
                        == before.deep_view()[q] by {
                        let j = self.index_of(q);
                        if j < i {
                            assert(before.entries@[j].0@ == q);
                            assert(before.index_of(q) == j);
                        } else {
                            assert(before.entries@[j + 1].0@ == q);
                            assert(before.index_of(q) == j + 1);
                        }
                    }
                    assert(self.deep_view() =~= before.deep_view().remove(key@));
                }
                Some(taken.1)
            },
            None => {
                assert(self.deep_view() =~= before.deep_view().remove(key@));
                None
            },
        }
    }

    /// The keys of the map are the keys of its deep view.
    pub proof fn lemma_has_is_key(&self, key: Seq<char>)
        ensures
            self.has(key) == self.deep_view().contains_key(key),
    {
    }

    /// The number of keys.
    pub fn len(&self) -> (r: usize)
        ensures
            self.deep_view().dom().finite(),
            r == self.deep_view().dom().len(),
    {
        proof {
            use_type_invariant(self);
            let ks = self.key_seq();
            assert(ks.no_duplicates());
            ks.unique_seq_to_set();
            assert forall|q: Seq<char>| self.has(q) == ks.to_set().contains(q) by {
                if self.has(q) {
                    let j = self.index_of(q);
                    assert(ks[j] == q);
                }
                if ks.to_set().contains(q) {
                    let j = choose|j: int| 0 <= j < ks.len() && ks[j] == q;
                    assert(self.entries@[j].0@ == q);
                }
            }
            assert(self.deep_view().dom() =~= ks.to_set());
        }
        self.entries.len()
    }
}

impl<V: Clone> Clone for NameMap<V> {
    /// A map with the same keys, each with a clone of its value.
    fn clone(&self) -> (r: Self)
        ensures
            forall|k: Seq<char>| r.has(k) == self.has(k),
    {
        proof {
            use_type_invariant(self);
        }
        let mut entries: Vec<(String, V)> = Vec::new();
        let mut i: usize = 0;
        while i < self.entries.len()
            invariant
                i <= self.entries@.len(),
                entries@.len() == i,
                self.inv(),
                forall|j: int| 0 <= j < i ==> entries@[j].0@ == self.entries@[j].0@,
            decreases self.entries@.len() - i,
        {
            entries.push((self.entries[i].0.clone(), self.entries[i].1.clone()));
            i = i + 1;
        }
        let r = NameMap { entries };
        proof {
            assert forall|k: Seq<char>| r.has(k) == self.has(k) by {
                if self.has(k) {
                    let j = choose|j: int| 0 <= j < self.entries@.len() && self.entries@[j].0@ == k;
                    assert(r.entries@[j].0@ == k);
                }
                if r.has(k) {
                    let j = choose|j: int| 0 <= j < r.entries@.len() && r.entries@[j].0@ == k;
                    assert(self.entries@[j].0@ == k);
                }
            }
        }
        r
    }
}

impl<V: DeepView> DeepView for NameMap<V> {
    type V = Map<Seq<char>, V::V>;

    closed spec fn deep_view(&self) -> Map<Seq<char>, V::V> {
        Map::new(
            |k: Seq<char>| self.has(k),
            |k: Seq<char>| self.entries@[self.index_of(k)].1.deep_view(),
        )
    }
}

/// The map with `item` appended to the list under `key`; a missing list
/// counts as empty.
pub open spec fn pushed<T>(m: Map<Seq<char>, Seq<T>>, key: Seq<char>, item: T) -> Map<
    Seq<char>,
    Seq<T>,
> {
    m.insert(
        key,
        if m.contains_key(key) {
            m[key].push(item)
        } else {
            Seq::<T>::empty().push(item)
        },
    )
}

/// The map with `value` stored under `inner` in the map under `key`; a
/// missing inner map counts as empty.
pub open spec fn inner_inserted<T>(
    m: Map<Seq<char>, Map<Seq<char>, T>>,
    key: Seq<char>,
    inner: Seq<char>,
    value: T,
) -> Map<Seq<char>, Map<Seq<char>, T>> {
    m.insert(
        key,
        if m.contains_key(key) {
            m[key].insert(inner, value)
        } else {
            Map::<Seq<char>, T>::empty().insert(inner, value)
        },
    )
}

/// Appends `item` to the list under `key`, starting a list where there is none.
pub fn push_entry<T: DeepView>(m: &mut NameMap<Vec<T>>, key: &str, item: T)
    ensures
        final(m).deep_view() == pushed(old(m).deep_view(), key@, item.deep_view()),
{
    let ghost before = m.deep_view();
    let ghost added = item.deep_view();
    let mut list = match m.remove(key) {
        Some(list) => list,
        None => Vec::new(),
    };
    let ghost held = list.deep_view();
    list.push(item);
    proof {
        assert(list.deep_view() =~= held.push(added));
        if !before.contains_key(key@) {
            assert(held =~= Seq::<T::V>::empty());
        }
    }
    m.insert(String::from_str(key), list);
    assert(m.deep_view() =~= pushed(before, key@, added));
}

/// Stores `value` under `inner` in the map under `key`, starting a map
/// where there is none.
pub fn insert_inner<T: DeepView>(m: &mut NameMap<NameMap<T>>, key: &str, inner: String, value: T)
    ensures
        final(m).deep_view() == inner_inserted(
            old(m).deep_view(),
            key@,
            inner@,
            value.deep_view(),
        ),
{
    let ghost before = m.deep_view();
    let mut map = match m.remove(key) {
        Some(map) => map,
        None => NameMap::new(),
    };
    map.insert(inner, value);
    m.insert(String::from_str(key), map);
    assert(m.deep_view() =~= inner_inserted(before, key@, inner@, value.deep_view()));
}

/// A finite set of names. Its view is the set of the names' characters.
#[derive(Debug, Clone)]
pub struct NameSet {
    names: NameMap<()>,
}

impl View for NameSet {
    type V = Set<Seq<char>>;

    closed spec fn view(&self) -> Set<Seq<char>> {
        self.names.deep_view().dom()
    }
}

impl NameSet {
    /// The empty set.
    pub fn new() -> (r: Self)
        ensures
            r@ == Set::<Seq<char>>::empty(),
    {
        let r = NameSet { names: NameMap::new() };
        assert(r@ =~= Set::<Seq<char>>::empty());
        r
    }

    /// Whether `name` is in the set.
    pub fn contains(&self, name: &str) -> (r: bool)
        ensures
            r == self@.contains(name@),
    {
        self.names.contains_key(name)
    }

    /// Adds `name` to the set.
    pub fn insert(&mut self, name: String)
        ensures
            final(self)@ == old(self)@.insert(name@),
    {
        self.names.insert(name, ());
        assert(self@ =~= old(self)@.insert(name@));
    }

    /// The number of names.
    pub fn len(&self) -> (r: usize)
        ensures
            self@.finite(),
            r == self@.len(),
    {
        self.names.len()
    }
}

} // verus!
