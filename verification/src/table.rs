//! Tables keyed by metric name.
//!
//! A [`Table`] keeps one value per name and remembers the order in which the
//! names first appeared, so that everything rendered from it comes out in a
//! fixed order. Its model is a [`TableModel`]: the map from name to value
//! together with that order.

use crate::number::Number;
use crate::text::bytes_eq;
use vstd::prelude::*;
use vstd::slice::slice_to_vec;

verus! {

/// What a table holds: a value for each name, and the names in order of first appearance.
pub struct TableModel<X> {
    pub order: Seq<Seq<u8>>,
    pub map: Map<Seq<u8>, X>,
}

impl<X> TableModel<X> {
    /// The table without entries.
    pub open spec fn empty() -> Self {
        TableModel { order: Seq::empty(), map: Map::empty() }
    }

    /// Each name with a value is listed exactly once in `order`, and no other name is.
    pub open spec fn wf(self) -> bool {
        &&& self.order.no_duplicates()
        &&& forall|k: Seq<u8>| self.map.dom().contains(k) <==> self.order.contains(k)
    }

    /// The value kept under `name`, if there is one.
    pub open spec fn get(self, name: Seq<u8>) -> Option<X> {
        if self.map.dom().contains(name) {
            Some(self.map[name])
        } else {
            None
        }
    }

    /// The table after `value` is stored under `name`: a known name keeps its
    /// place, a new one goes to the end.
    pub open spec fn put(self, name: Seq<u8>, value: X) -> Self {
        TableModel {
            order: if self.map.dom().contains(name) {
                self.order
            } else {
                self.order.push(name)
            },
            map: self.map.insert(name, value),
        }
    }

    /// The table with the same names in the same order, each value replaced by `f` of it.
    pub open spec fn map_values<Y>(self, f: spec_fn(X) -> Y) -> TableModel<Y> {
        TableModel { order: self.order, map: self.map.map_values(f) }
    }

    /// Storing a value keeps the table well formed.
    pub proof fn lemma_put_wf(self, name: Seq<u8>, value: X)
        requires
            self.wf(),
        ensures
            self.put(name, value).wf(),
    {
        let after = self.put(name, value);
        if self.map.dom().contains(name) {
            assert(after.map.dom() =~= self.map.dom());
        } else {
            assert(!self.order.contains(name));
            assert forall|i: int, j: int|
                0 <= i < after.order.len() && 0 <= j < after.order.len() && i != j implies {
                after.order[i] != after.order[j]
            } by {
                if i < self.order.len() {
                    assert(self.order.contains(self.order[i]));
                }
                if j < self.order.len() {
                    assert(self.order.contains(self.order[j]));
                }
            }
            assert forall|k: Seq<u8>| after.map.dom().contains(k) <==> after.order.contains(
                k,
            ) by {
                if k == name {
                    assert(after.order[self.order.len() as int] == name);
                } else if self.order.contains(k) {
                    let i = choose|i: int| 0 <= i < self.order.len() && self.order[i] == k;
                    assert(after.order[i] == k);
                } else if after.order.contains(k) {
                    let i = choose|i: int| 0 <= i < after.order.len() && after.order[i] == k;
                    assert(self.order[i] == k);
                }
            }
        }
    }
}

/// One named value of a table.
struct Entry<V> {
    name: Vec<u8>,
    value: V,
}

/// An insertion-ordered table from metric name to value.
pub struct Table<V> {
    entries: Vec<Entry<V>>,
}

impl<V> Table<V> {
    /// No two entries share a name.
    #[verifier::type_invariant]
    pub closed spec fn inv(&self) -> bool {
        forall|i: int, j: int|
            0 <= i < j < self.entries@.len() ==> (#[trigger] self.entries@[i]).name@
                != (#[trigger] self.entries@[j]).name@
    }

    /// The names in table order.
    spec fn names(&self) -> Seq<Seq<u8>> {
        Seq::new(self.entries@.len(), |i: int| self.entries@[i].name@)
    }
}

impl<V: DeepView> Table<V> {
    /// The model of the value at place `i`.
    spec fn value_model(&self, i: int) -> V::V {
        self.entries@[i].value.deep_view()
    }

    /// The place of `name` among the entries.
    spec fn place(&self, name: Seq<u8>) -> int {
        choose|i: int| 0 <= i < self.entries@.len() && self.entries@[i].name@ == name
    }

    /// The table's model.
    pub closed spec fn view(&self) -> TableModel<V::V> {
        TableModel {
            order: self.names(),
            map: Map::new(
                |k: Seq<u8>| self.names().contains(k),
                |k: Seq<u8>| self.value_model(self.place(k)),
            ),
        }
    }

    /// A table's model is well formed.
    pub proof fn lemma_wf(&self)
        requires
            self.inv(),
        ensures
            self@.wf(),
    {
        self.lemma_view();
    }

    /// The model is well formed and lists entry `i` at place `i`.
    proof fn lemma_view(&self)
        requires
            self.inv(),
        ensures
            self@.wf(),
            self@.order.len() == self.entries@.len(),
            forall|i: int|
                0 <= i < self.entries@.len() ==> {
                    &&& #[trigger] self@.order[i] == self.entries@[i].name@
                    &&& self@.map.dom().contains(self@.order[i])
                    &&& self@.map[self@.order[i]] == self.value_model(i)
                },
    {
        let names = self.names();
        assert forall|i: int| 0 <= i < self.entries@.len() implies {
            &&& #[trigger] self@.order[i] == self.entries@[i].name@
            &&& self@.map.dom().contains(self@.order[i])
            &&& self@.map[self@.order[i]] == self.value_model(i)
        } by {
            let k = names[i];
            assert(names.contains(k));
            let p = self.place(k);
            assert(0 <= p < self.entries@.len() && self.entries@[p].name@ == k);
            if p < i {
                assert(self.entries@[p].name@ != self.entries@[i].name@);
            } else if i < p {
                assert(self.entries@[i].name@ != self.entries@[p].name@);
            }
        }
        assert forall|i: int, j: int|
            0 <= i < names.len() && 0 <= j < names.len() && i != j implies names[i]
            != names[j] by {
            if i < j {
                assert(self.entries@[i].name@ != self.entries@[j].name@);
            } else {
                assert(self.entries@[j].name@ != self.entries@[i].name@);
            }
        }
    }

    /// Entries that differ from those of a table only at the place of `name`,
    /// or that have one more entry for a `name` the table lacks, share no names.
    proof fn lemma_names_stay_apart(&self, entries: Seq<Entry<V>>, name: Seq<u8>, at: int)
        requires
            self.inv(),
            0 <= at <= self.entries@.len(),
            at < self.entries@.len() ==> self.entries@[at].name@ == name,
            at == self.entries@.len() ==> !self.names().contains(name),
            entries.len() == if at < self.entries@.len() {
                self.entries@.len()
            } else {
                self.entries@.len() + 1
            },
            entries[at].name@ == name,
            forall|j: int|
                0 <= j < self.entries@.len() ==> (#[trigger] entries[j]).name@
                    == self.entries@[j].name@,
        ensures
            forall|i: int, j: int|
                0 <= i < j < entries.len() ==> (#[trigger] entries[i]).name@
                    != (#[trigger] entries[j]).name@,
    {
        assert forall|i: int, j: int| 0 <= i < j < entries.len() implies {
            (#[trigger] entries[i]).name@ != (#[trigger] entries[j]).name@
        } by {
            if j == self.entries@.len() {
                assert(self.names()[i] == self.entries@[i].name@);
            } else {
                assert(self.entries@[i].name@ != self.entries@[j].name@);
            }
        }
    }

    /// What storing does to the model: `after` is `before` with `value`
    /// stored under `name`, at the place `at` where `name` was found or at
    /// the end.
    proof fn lemma_stored(before: &Self, after: &Self, name: Seq<u8>, value: V::V, at: int)
        requires
            before.inv(),
            after.inv(),
            0 <= at <= before.entries@.len(),
            at < before.entries@.len() ==> before.entries@[at].name@ == name,
            at == before.entries@.len() ==> !before.names().contains(name),
            after.entries@.len() == if at < before.entries@.len() {
                before.entries@.len()
            } else {
                before.entries@.len() + 1
            },
            after.entries@[at].name@ == name,
            after.value_model(at) == value,
            forall|j: int|
                0 <= j < before.entries@.len() ==> (#[trigger] after.entries@[j]).name@
                    == before.entries@[j].name@,
            forall|j: int|
                0 <= j < before.entries@.len() && j != at ==> #[trigger] after.value_model(j)
                    == before.value_model(j),
        ensures
            after@ == before@.put(name, value),
    {
        before.lemma_view();
        after.lemma_view();
        let goal = before@.put(name, value);
        assert(before.names().contains(name) <==> at < before.entries@.len()) by {
            if at < before.entries@.len() {
                assert(before.names()[at] == name);
            }
        }
        assert(after@.order =~= goal.order);
        assert forall|k: Seq<u8>| after@.map.dom().contains(k) <==> goal.map.dom().contains(
            k,
        ) by {
            if before.names().contains(k) {
                let p = choose|p: int| 0 <= p < before.names().len() && before.names()[p] == k;
                assert(after.names()[p] == k);
            }
            if after.names().contains(k) {
                let p = choose|p: int| 0 <= p < after.names().len() && after.names()[p] == k;
                if p < before.names().len() {
                    assert(before.names()[p] == k);
                }
            }
            if k == name {
                assert(after.names()[at] == k);
            }
        }
        assert forall|k: Seq<u8>| after@.map.dom().contains(k) implies after@.map[k]
            == goal.map[k] by {
            let p = choose|p: int| 0 <= p < after.names().len() && after.names()[p] == k;
            assert(after@.order[p] == k);
            if p < before.entries@.len() {
                assert(before@.order[p] == k);
            }
            if p != at {
                assert(after.value_model(p) == before.value_model(p));
            }
        }
        assert(after@.map =~= goal.map);
    }

    /// An empty table.
    pub fn new() -> (t: Self)
        ensures
            t@ == TableModel::<V::V>::empty(),
    {
        let t = Table { entries: Vec::new() };
        assert(t@.order =~= Seq::<Seq<u8>>::empty());
        assert(t@.map =~= Map::<Seq<u8>, V::V>::empty());
        t
    }

    /// How many names the table holds.
    pub fn len(&self) -> (n: usize)
        ensures
            n == self@.order.len(),
    {
        self.entries.len()
    }

    /// The name at place `i`.
    pub fn name_at(&self, i: usize) -> (name: &Vec<u8>)
        requires
            i < self@.order.len(),
        ensures
            name@ == self@.order[i as int],
    {
        &self.entries[i].name
    }

    /// The value at place `i`.
    pub fn value_at(&self, i: usize) -> (value: &V)
        requires
            i < self@.order.len(),
        ensures
            self@.map.dom().contains(self@.order[i as int]),
            value.deep_view() == self@.map[self@.order[i as int]],
    {
        proof {
            use_type_invariant(self);
            self.lemma_view();
        }
        &self.entries[i].value
    }

    /// The place of `name`, if the table holds it.
    pub fn find(&self, name: &[u8]) -> (place: Option<usize>)
        ensures
            match place {
                Some(i) => {
                    &&& i < self@.order.len()
                    &&& self@.order[i as int] == name@
                    &&& self@.map.dom().contains(name@)
                },
                None => !self@.map.dom().contains(name@),
            },
    {
        let mut i: usize = 0;
        while i < self.entries.len()
            invariant
                i <= self.entries@.len(),
                forall|j: int| 0 <= j < i ==> self.entries@[j].name@ != name@,
            decreases self.entries@.len() - i,
        {
            if bytes_eq(self.entries[i].name.as_slice(), name) {
                assert(self.names()[i as int] == name@);
                return Some(i);
            }
            i += 1;
        }
        proof {
            if self.names().contains(name@) {
                let j = choose|j: int| 0 <= j < self.names().len() && self.names()[j] == name@;
                assert(self.entries@[j].name@ == name@);
            }
        }
        None
    }

    /// The value kept under `name`, if there is one.
    pub fn get(&self, name: &[u8]) -> (value: Option<&V>)
        ensures
            match value {
                Some(v) => self@.get(name@) == Some(v.deep_view()),
                None => self@.get(name@) is None,
            },
    {
        match self.find(name) {
            Some(i) => Some(self.value_at(i)),
            None => None,
        }
    }

    /// Stores `value` under `name`, replacing what was there.
    pub fn insert(&mut self, name: &[u8], value: V)
        ensures
            final(self)@ == old(self)@.put(name@, value.deep_view()),
    {
        proof {
            use_type_invariant(&*self);
            self.lemma_view();
        }
        let place = self.find(name);
        let ghost at = match place {
            Some(i) => i as int,
            None => self.entries@.len() as int,
        };
        let mut entries: Vec<Entry<V>> = Vec::new();
        core::mem::swap(&mut self.entries, &mut entries);
        match place {
            Some(i) => {
                entries[i].value = value;
            },
            None => {
                entries.push(Entry { name: slice_to_vec(name), value });
            },
        }
        proof {
            old(self).lemma_names_stay_apart(entries@, name@, at);
        }
        core::mem::swap(&mut self.entries, &mut entries);
        proof {
            Self::lemma_stored(&*old(self), &*self, name@, value.deep_view(), at);
        }
    }

    /// Removes every entry.
    pub fn clear(&mut self)
        ensures
            final(self)@ == TableModel::<V::V>::empty(),
    {
        self.entries = Vec::new();
        assert(self@.order =~= Seq::<Seq<u8>>::empty());
        assert(self@.map =~= Map::<Seq<u8>, V::V>::empty());
    }

    /// A table with the names of `other`, in the same order, and `values` in
    /// place of its values.
    pub fn with_names_of<W: DeepView>(other: &Table<W>, values: Vec<V>) -> (t: Self)
        requires
            values@.len() == other@.order.len(),
        ensures
            t@.wf(),
            t@.order == other@.order,
            t@.map.dom() == other@.map.dom(),
            forall|i: int|
                0 <= i < values@.len() ==> t@.map[#[trigger] other@.order[i]]
                    == values@[i].deep_view(),
    {
        proof {
            use_type_invariant(other);
            other.lemma_view();
        }
        let mut values = values;
        let ghost given = values@;
        let mut reversed: Vec<V> = Vec::new();
        while values.len() > 0
            invariant
                values@.len() + reversed@.len() == given.len(),
                forall|j: int| 0 <= j < values@.len() ==> values@[j] == given[j],
                forall|j: int|
                    0 <= j < reversed@.len() ==> reversed@[j] == given[given.len() - 1 - j],
            decreases values@.len(),
        {
            let v = values.pop().unwrap();
            reversed.push(v);
        }
        let mut entries: Vec<Entry<V>> = Vec::new();
        let mut i: usize = 0;
        let n = other.entries.len();
        while i < n
            invariant
                i <= n,
                n == other.entries@.len(),
                n == given.len(),
                entries@.len() == i,
                reversed@.len() == n - i,
                forall|j: int|
                    0 <= j < reversed@.len() ==> reversed@[j] == given[given.len() - 1 - j],
                forall|j: int|
                    0 <= j < i ==> (#[trigger] entries@[j]).name@ == other.entries@[j].name@
                        && entries@[j].value == given[j],
            decreases n - i,
        {
            let value = reversed.pop().unwrap();
            entries.push(Entry { name: slice_to_vec(other.entries[i].name.as_slice()), value });
            i += 1;
        }
        assert forall|a: int, b: int| 0 <= a < b < entries@.len() implies {
            (#[trigger] entries@[a]).name@ != (#[trigger] entries@[b]).name@
        } by {
            assert(other.entries@[a].name@ != other.entries@[b].name@);
        }
        let t = Table { entries };
        proof {
            t.lemma_view();
            assert(t@.order =~= other@.order);
            assert(t@.map.dom() =~= other@.map.dom());
        }
        t
    }
}

impl Table<Number> {
    /// A copy of the table.
    pub fn duplicate(&self) -> (t: Self)
        ensures
            t@ == self@,
    {
        proof {
            use_type_invariant(self);
            self.lemma_view();
        }
        let mut values: Vec<Number> = Vec::new();
        let mut i: usize = 0;
        while i < self.entries.len()
            invariant
                i <= self.entries@.len(),
                values@.len() == i,
                forall|j: int| 0 <= j < i ==> values@[j] == self.entries@[j].value,
            decreases self.entries@.len() - i,
        {
            values.push(self.entries[i].value);
            i += 1;
        }
        let t = Table::with_names_of(self, values);
        proof {
            assert forall|k: Seq<u8>| t@.map.dom().contains(k) implies t@.map[k]
                == self@.map[k] by {
                let p = choose|p: int| 0 <= p < self@.order.len() && self@.order[p] == k;
                assert(t@.map[self@.order[p]] == values@[p].deep_view());
            }
            assert(t@.map =~= self@.map);
        }
        t
    }
}

impl Table<Vec<Number>> {
    /// Appends `sample` to the samples kept under `name`, starting a new list
    /// for a name not seen yet.
    pub fn append(&mut self, name: &[u8], sample: Number)
        ensures
            final(self)@ == old(self)@.put(
                name@,
                match old(self)@.get(name@) {
                    Some(samples) => samples.push(sample@),
                    None => seq![sample@],
                },
            ),
    {
        proof {
            use_type_invariant(&*self);
            self.lemma_view();
        }
        let place = self.find(name);
        let ghost at = match place {
            Some(i) => i as int,
            None => self.entries@.len() as int,
        };
        let ghost stored = match old(self)@.get(name@) {
            Some(samples) => samples.push(sample@),
            None => seq![sample@],
        };
        let mut entries: Vec<Entry<Vec<Number>>> = Vec::new();
        core::mem::swap(&mut self.entries, &mut entries);
        match place {
            Some(i) => {
                entries[i].value.push(sample);
            },
            None => {
                let mut samples: Vec<Number> = Vec::new();
                samples.push(sample);
                entries.push(Entry { name: slice_to_vec(name), value: samples });
            },
        }
        proof {
            assert(entries@[at].value.deep_view() =~= stored);
            old(self).lemma_names_stay_apart(entries@, name@, at);
        }
        core::mem::swap(&mut self.entries, &mut entries);
        proof {
            Self::lemma_stored(&*old(self), &*self, name@, stored, at);
        }
    }
}

} // verus!
