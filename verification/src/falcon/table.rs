//! Tables keyed by text.
use vstd::hash_map::StringHashMap;
use vstd::prelude::*;

verus! {

/// A table: at most one value under each key. Values keep the place at which they came in, and an
/// index tells the place of each key.
pub struct Table<V> {
    places: StringHashMap<usize>,
    entries: Vec<(String, V)>,
}

impl<V> View for Table<V> {
    type V = Map<Seq<char>, V>;

    closed spec fn view(&self) -> Map<Seq<char>, V> {
        Map::new(
            |key: Seq<char>| self.places@.contains_key(key),
            |key: Seq<char>| self.entries@[self.places@[key] as int].1,
        )
    }
}

impl<V> Table<V> {
    /// The index holds the keys of the entries, each with its place.
    pub closed spec fn wf(&self) -> bool {
        &&& forall|i: int|
            0 <= i < self.entries@.len() ==> self.places@.contains_key(
                (#[trigger] self.entries@[i]).0@,
            ) && self.places@[self.entries@[i].0@] == i
        &&& forall|key: Seq<char>| #[trigger]
            self.places@.contains_key(key) ==> self.places@[key] < self.entries@.len()
                && self.entries@[self.places@[key] as int].0@ == key
    }

    /// An empty table.
    pub fn new() -> (r: Table<V>)
        ensures
            r.wf(),
            r@ == Map::<Seq<char>, V>::empty(),
    {
        let r = Table { places: StringHashMap::new(), entries: Vec::new() };
        assert(r@ =~= Map::<Seq<char>, V>::empty());
        r
    }

    /// The value under a key.
    pub fn get(&self, key: &str) -> (r: Option<&V>)
        requires
            self.wf(),
        ensures
            r is Some <==> self@.dom().contains(key@),
            r matches Some(value) ==> *value == self@[key@],
    {
        match self.places.get(key) {
            Some(place) => Some(&self.entries[*place].1),
            None => None,
        }
    }

    /// The place of the value under a key.
    pub fn get_mut(&mut self, key: &str) -> (r: Option<&mut V>)
        requires
            old(self).wf(),
        ensures
            final(self).wf(),
            r is Some <==> old(self)@.dom().contains(key@),
            r matches Some(value) ==> *value == old(self)@[key@] && final(self)@
                == old(self)@.insert(key@, *final(value)),
            r is None ==> final(self)@ == old(self)@,
    {
        match self.places.get(key) {
            Some(place) => {
                let place: usize = *place;
                proof {
                    lemma_place(*self, place as int, key@);
                }
                Some(&mut self.entries[place].1)
            },
            None => None,
        }
    }

    /// Puts a value under a key, in place of any that stands there.
    pub fn insert(&mut self, key: String, value: V)
        requires
            old(self).wf(),
        ensures
            final(self).wf(),
            final(self)@ == old(self)@.insert(key@, value),
    {
        let ghost name = key@;
        let known: Option<usize> = match self.places.get(key.as_str()) {
            Some(place) => Some(*place),
            None => None,
        };
        match known {
            Some(place) => {
                self.entries[place] = (key, value);
            },
            None => {
                self.places.insert(key.clone(), self.entries.len());
                self.entries.push((key, value));
            },
        }
        assert(self@ =~= old(self)@.insert(name, value));
    }

    /// The number of keys.
    pub fn len(&self) -> (r: usize)
        requires
            self.wf(),
        ensures
            self@.dom().finite(),
            r == self@.dom().len(),
    {
        proof {
            self.lemma_len();
        }
        self.entries.len()
    }

    proof fn lemma_len(self)
        requires
            self.wf(),
        ensures
            self@.dom().finite(),
            self@.dom().len() == self.entries@.len(),
    {
        let names = self.entries@.map_values(|e: (String, V)| e.0@);
        assert(names.no_duplicates()) by {
            assert forall|i: int, j: int|
                0 <= i < names.len() && 0 <= j < names.len() && i != j implies names[i]
                != names[j] by {
                assert(self.places@[self.entries@[i].0@] == i);
                assert(self.places@[self.entries@[j].0@] == j);
            }
        }
        names.unique_seq_to_set();
        assert(self@.dom() =~= names.to_set()) by {
            assert forall|key: Seq<char>| self@.dom().contains(key) == names.to_set().contains(
                key,
            ) by {
                if self.places@.contains_key(key) {
                    assert(names[self.places@[key] as int] == key);
                }
                if names.contains(key) {
                    let i = choose|i: int| 0 <= i < names.len() && names[i] == key;
                    assert(self.entries@[i].0@ == key);
                }
            }
        }
    }
}

/// Whatever is put at the place of a key, the table stays one with that value under the key.
proof fn lemma_place<V>(before: Table<V>, i: int, key: Seq<char>)
    requires
        before.wf(),
        0 <= i < before.entries@.len(),
        before.entries@[i].0@ == key,
    ensures
        forall|after: Table<V>|
            #![trigger after.wf()]
            #![trigger after@]
            after.places == before.places && after.entries@.len() == before.entries@.len()
                && after.entries@[i].0 == before.entries@[i].0 && (forall|j: int|
                0 <= j < before.entries@.len() && j != i ==> after.entries@[j]
                    == #[trigger] before.entries@[j]) ==> after.wf() && after@ == before@.insert(
                key,
                after.entries@[i].1,
            ),
{
    assert forall|after: Table<V>|
        #![trigger after.wf()]
        #![trigger after@]
        after.places == before.places && after.entries@.len() == before.entries@.len()
            && after.entries@[i].0 == before.entries@[i].0 && (forall|j: int|
            0 <= j < before.entries@.len() && j != i ==> after.entries@[j]
                == #[trigger] before.entries@[j]) implies after.wf() && after@ == before@.insert(
        key,
        after.entries@[i].1,
    ) by {
        assert forall|j: int| 0 <= j < after.entries@.len() implies (
        #[trigger] after.entries@[j]).0@ == before.entries@[j].0@ by {
            if j != i {
                assert(after.entries@[j] == before.entries@[j]);
            }
        }
        assert(after@ =~= before@.insert(key, after.entries@[i].1));
    }
}

/// The values under a key; none where the key is missing.
pub open spec fn list_under<T>(table: Map<Seq<char>, Vec<T>>, key: Seq<char>) -> Seq<T> {
    if table.dom().contains(key) {
        table[key]@
    } else {
        Seq::empty()
    }
}

impl<T> Table<Vec<T>> {
    /// Appends a value to those under a key.
    pub fn push(&mut self, key: String, value: T)
        requires
            old(self).wf(),
        ensures
            final(self).wf(),
            final(self)@.dom() == old(self)@.dom().insert(key@),
            forall|k: Seq<char>|
                k != key@ && old(self)@.dom().contains(k) ==> final(self)@[k] == old(self)@[k],
            final(self)@[key@]@ == list_under(old(self)@, key@).push(value),
    {
        if self.get(key.as_str()).is_some() {
            match self.get_mut(key.as_str()) {
                Some(values) => {
                    values.push(value);
                },
                None => {},
            }
        } else {
            let mut values: Vec<T> = Vec::new();
            values.push(value);
            self.insert(key, values);
        }
    }
}

} // verus!
