//! A table of values under text keys, in the order in which the keys came.
use vstd::prelude::*;

use crate::text::same_text;
use crate::text::texts;

verus! {

/// Values under text keys. Each key occurs at most once.
pub struct Table<V> {
    entries: Vec<(String, V)>,
}

/// Where `key` stands among `entries`: the first such place, or the length.
pub open spec fn place_of<V>(entries: Seq<(Seq<char>, V)>, key: Seq<char>) -> int
    decreases entries.len(),
{
    if entries.len() == 0 || entries[0].0 == key {
        0
    } else {
        1 + place_of(entries.drop_first(), key)
    }
}

/// The place of a key, if it has one, holds that key, and no earlier place does.
proof fn lemma_place_of<V>(entries: Seq<(Seq<char>, V)>, key: Seq<char>)
    ensures
        0 <= place_of(entries, key) <= entries.len(),
        place_of(entries, key) < entries.len() ==> entries[place_of(entries, key)].0 == key,
        forall|i: int| 0 <= i < place_of(entries, key) ==> (#[trigger] entries[i]).0 != key,
    decreases entries.len(),
{
    if entries.len() == 0 || entries[0].0 == key {
    } else {
        lemma_place_of(entries.drop_first(), key);
        assert forall|i: int| 0 <= i < place_of(entries, key) implies (
        #[trigger] entries[i]).0 != key by {
            if i > 0 {
                assert(entries.drop_first()[i - 1] == entries[i]);
            }
        }
    }
}

/// The map from keys to values that a list of entries makes up.
pub open spec fn map_of<V>(entries: Seq<(Seq<char>, V)>) -> Map<Seq<char>, V> {
    Map::new(
        |key: Seq<char>| place_of(entries, key) < entries.len(),
        |key: Seq<char>| entries[place_of(entries, key)].1,
    )
}

impl<V> Table<V> {
    /// The keys and values, in order.
    pub closed spec fn listing(&self) -> Seq<(Seq<char>, V)> {
        self.entries@.map_values(|e: (String, V)| (e.0@, e.1))
    }

    /// Each key occurs at most once.
    pub closed spec fn wf(&self) -> bool {
        forall|i: int, j: int|
            0 <= i < j < self.entries@.len() ==> (#[trigger] self.entries@[i]).0@ != (
            #[trigger] self.entries@[j]).0@
    }

    /// An entry of a table is what the table holds under its key.
    pub proof fn lemma_entry(&self, i: int)
        requires
            self.wf(),
            0 <= i < self.listing().len(),
        ensures
            self@.contains_key(self.listing()[i].0),
            self@[self.listing()[i].0] == self.listing()[i].1,
    {
        lemma_place_of(self.listing(), self.listing()[i].0);
        let at = place_of(self.listing(), self.listing()[i].0);
        assert(self.listing()[at].0 == self.entries@[at].0@);
        assert(self.listing()[i].0 == self.entries@[i].0@);
        assert(at == i);
    }

    /// Each key of a table stands at exactly one place of the listing.
    pub proof fn lemma_key(&self, key: Seq<char>) -> (i: int)
        requires
            self.wf(),
            self@.contains_key(key),
        ensures
            0 <= i < self.listing().len(),
            self.listing()[i].0 == key,
            self.listing()[i].1 == self@[key],
            forall|j: int|
                0 <= j < self.listing().len() && (#[trigger] self.listing()[j]).0 == key ==> j == i,
    {
        lemma_place_of(self.listing(), key);
        let at = place_of(self.listing(), key);
        assert forall|j: int|
            0 <= j < self.listing().len() && (#[trigger] self.listing()[j]).0 == key implies j
            == at by {
            assert(self.listing()[at].0 == self.entries@[at].0@);
            assert(self.listing()[j].0 == self.entries@[j].0@);
        }
        at
    }

    /// An empty table.
    pub fn new() -> (table: Table<V>)
        ensures
            table.wf(),
            table@ == Map::<Seq<char>, V>::empty(),
            table.listing() == Seq::<(Seq<char>, V)>::empty(),
    {
        let table = Table { entries: Vec::new() };
        assert(table.listing() =~= Seq::<(Seq<char>, V)>::empty());
        assert(table@ =~= Map::<Seq<char>, V>::empty());
        table
    }

    /// How many keys there are.
    pub fn len(&self) -> (n: usize)
        ensures
            n == self.listing().len(),
    {
        self.entries.len()
    }

    /// The place of `key`, or the length.
    fn place(&self, key: &str) -> (i: usize)
        ensures
            i == place_of(self.listing(), key@),
            i <= self.entries@.len(),
            i < self.entries@.len() ==> self.entries@[i as int].0@ == key@,
            self@.contains_key(key@) == (i < self.entries@.len()),
            i < self.entries@.len() ==> self@[key@] == self.entries@[i as int].1,
            i == self.entries@.len() ==> forall|j: int|
                0 <= j < self.entries@.len() ==> (#[trigger] self.entries@[j]).0@ != key@,
    {
        let n: usize = self.entries.len();
        let mut i: usize = 0;
        proof {
            lemma_place_of(self.listing(), key@);
        }
        while i < n
            invariant
                n == self.entries@.len(),
                i <= n,
                forall|j: int| 0 <= j < i ==> (#[trigger] self.entries@[j]).0@ != key@,
                i <= place_of(self.listing(), key@) <= n,
                place_of(self.listing(), key@) < n ==> self.listing()[place_of(
                    self.listing(),
                    key@,
                )].0 == key@,
                forall|j: int|
                    0 <= j < place_of(self.listing(), key@) ==> (#[trigger] self.listing()[j]).0
                        != key@,
            decreases n - i,
        {
            assert(self.listing()[i as int].0 == self.entries@[i as int].0@);
            if same_text(self.entries[i].0.as_str(), key) {
                return i;
            }
            i = i + 1;
        }
        i
    }

    /// Whether the table holds something under `key`.
    pub fn contains_key(&self, key: &str) -> (found: bool)
        ensures
            found == self@.contains_key(key@),
    {
        self.place(key) < self.entries.len()
    }

    /// What the table holds under `key`.
    pub fn get(&self, key: &str) -> (value: Option<&V>)
        ensures
            match value {
                Some(v) => self@.contains_key(key@) && *v == self@[key@],
                None => !self@.contains_key(key@),
            },
    {
        let i: usize = self.place(key);
        if i < self.entries.len() {
            Some(&self.entries[i].1)
        } else {
            None
        }
    }

    /// The key at place `i`.
    pub fn key_at(&self, i: usize) -> (key: &String)
        requires
            i < self.listing().len(),
        ensures
            key@ == self.listing()[i as int].0,
    {
        &self.entries[i].0
    }

    /// The keys, in order.
    pub fn keys(&self) -> (keys: Vec<String>)
        requires
            self.wf(),
        ensures
            texts(keys@).no_duplicates(),
            forall|key: Seq<char>| #[trigger]
                texts(keys@).contains(key) == self@.contains_key(key),
    {
        let n: usize = self.entries.len();
        let mut keys: Vec<String> = Vec::new();
        for i in 0..n
            invariant
                n == self.entries@.len(),
                keys@.len() == i,
                forall|j: int| 0 <= j < i ==> (#[trigger] keys@[j])@ == self.entries@[j].0@,
        {
            keys.push(self.entries[i].0.clone());
        }
        proof {
            let names = texts(keys@);
            assert forall|a: int, b: int|
                0 <= a < names.len() && 0 <= b < names.len() && a != b implies names[a]
                != names[b] by {
                assert(names[a] == keys@[a]@ && names[b] == keys@[b]@);
                assert(self.entries@[a].0@ != self.entries@[b].0@);
            }
            assert forall|key: Seq<char>| #[trigger]
                names.contains(key) == self@.contains_key(key) by {
                if names.contains(key) {
                    let a = choose|a: int| 0 <= a < names.len() && names[a] == key;
                    assert(names[a] == keys@[a]@);
                    assert(self.listing()[a].0 == self.entries@[a].0@);
                    self.lemma_entry(a);
                }
                if self@.contains_key(key) {
                    let a = self.lemma_key(key);
                    assert(self.listing()[a].0 == self.entries@[a].0@);
                    assert(names[a] == keys@[a]@);
                }
            }
        }
        keys
    }

    /// The value at place `i`.
    pub fn value_at(&self, i: usize) -> (value: &V)
        requires
            i < self.listing().len(),
        ensures
            *value == self.listing()[i as int].1,
    {
        &self.entries[i].1
    }

    /// The value at place `i`, to be changed.
    pub fn value_at_mut(&mut self, i: usize) -> (value: &mut V)
        requires
            old(self).wf(),
            i < old(self).listing().len(),
        ensures
            *value == old(self).listing()[i as int].1,
            final(self).listing() == old(self).listing().update(
                i as int,
                (old(self).listing()[i as int].0, *final(value)),
            ),
            final(self)@ == old(self)@.insert(old(self).listing()[i as int].0, *final(value)),
            final(self).wf(),
    {
        proof {
            self.lemma_replaced(i as int);
        }
        &mut self.entries[i].1
    }

    /// Whether `other` is this table with at most the value at place `i` changed.
    spec fn replaced_at(&self, i: int, other: Table<V>) -> bool {
        &&& other.entries@.len() == self.entries@.len()
        &&& other.entries@[i].0 == self.entries@[i].0
        &&& forall|j: int|
            0 <= j < self.entries@.len() && j != i ==> #[trigger] other.entries@[j]
                == self.entries@[j]
    }

    /// Putting another value at a place changes the map there alone.
    proof fn lemma_replaced(&self, i: int)
        requires
            self.wf(),
            0 <= i < self.entries@.len(),
        ensures
            forall|other: Table<V>|
                #![trigger other.listing()]
                self.replaced_at(i, other) ==> {
                    let v = other.entries@[i].1;
                    &&& other.listing() == self.listing().update(i, (self.listing()[i].0, v))
                    &&& other@ == self@.insert(self.listing()[i].0, v)
                    &&& other.wf()
                },
    {
        assert forall|other: Table<V>|
            #![trigger other.listing()]
            self.replaced_at(i, other) implies {
            let v = other.entries@[i].1;
            &&& other.listing() == self.listing().update(i, (self.listing()[i].0, v))
            &&& other@ == self@.insert(self.listing()[i].0, v)
            &&& other.wf()
        } by {
            let v = other.entries@[i].1;
            assert(other.listing() =~= self.listing().update(i, (self.listing()[i].0, v)));
            assert forall|a: int, b: int| 0 <= a < b < other.entries@.len() implies (
            #[trigger] other.entries@[a]).0@ != (#[trigger] other.entries@[b]).0@ by {
                assert(other.entries@[a].0 == self.entries@[a].0);
                assert(other.entries@[b].0 == self.entries@[b].0);
            }
            assert forall|key: Seq<char>|
                #![trigger other@.contains_key(key)]
                place_of(other.listing(), key) == place_of(self.listing(), key) by {
                lemma_place_of(other.listing(), key);
                lemma_place_of(self.listing(), key);
                let a = place_of(other.listing(), key);
                let b = place_of(self.listing(), key);
                assert(forall|k: int|
                    0 <= k < self.listing().len() ==> (#[trigger] self.listing()[k]).0
                        == other.listing()[k].0);
                if a < b {
                    assert(self.listing()[a].0 == other.listing()[a].0);
                }
                if b < a {
                    assert(self.listing()[b].0 == other.listing()[b].0);
                }
            }
            lemma_place_of(self.listing(), self.listing()[i].0);
            assert(place_of(self.listing(), self.listing()[i].0) == i) by {
                let at = place_of(self.listing(), self.listing()[i].0);
                assert(self.listing()[at].0 == self.entries@[at].0@);
                assert(self.listing()[i].0 == self.entries@[i].0@);
            }
            let changed = self@.insert(self.listing()[i].0, v);
            assert forall|key: Seq<char>| #[trigger]
                other@.contains_key(key) == changed.contains_key(key) by {}
            assert forall|key: Seq<char>| #[trigger]
                other@.contains_key(key) implies other@[key] == changed[key] by {
                lemma_place_of(self.listing(), key);
            }
            assert(other@ =~= changed);
        }
    }

    /// What the table holds under `key`, to be changed.
    pub fn get_mut(&mut self, key: &str) -> (value: Option<&mut V>)
        requires
            old(self).wf(),
        ensures
            match value {
                Some(v) => {
                    &&& old(self)@.contains_key(key@)
                    &&& *v == old(self)@[key@]
                    &&& final(self)@ == old(self)@.insert(key@, *final(v))
                    &&& final(self).wf()
                },
                None => !old(self)@.contains_key(key@) && *final(self) == *old(self),
            },
    {
        let i: usize = self.place(key);
        if i < self.entries.len() {
            assert(self.listing()[i as int].0 == self.entries@[i as int].0@);
            Some(self.value_at_mut(i))
        } else {
            None
        }
    }

    /// The keys with what the table holds under them.
    pub fn into_entries(self) -> (entries: Vec<(String, V)>)
        ensures
            entries@.map_values(|entry: (String, V)| (entry.0@, entry.1)) == self.listing(),
    {
        self.entries
    }

    /// Puts `value` under `key`, in place of what stood there before.
    pub fn insert(&mut self, key: String, value: V)
        requires
            old(self).wf(),
        ensures
            final(self).wf(),
            final(self)@ == old(self)@.insert(key@, value),
    {
        let i: usize = self.place(key.as_str());
        if i < self.entries.len() {
            assert(self.listing()[i as int].0 == self.entries@[i as int].0@);
            let slot = self.value_at_mut(i);
            *slot = value;
        } else {
            let ghost before = *self;
            self.entries.push((key, value));
            proof {
                let after = *self;
                assert(after.listing() =~= before.listing().push((key@, value)));
                assert forall|a: int, b: int| 0 <= a < b < after.entries@.len() implies (
                #[trigger] after.entries@[a]).0@ != (#[trigger] after.entries@[b]).0@ by {
                    assert(after.entries@[a] == before.entries@[a]);
                    if b < before.entries@.len() {
                        assert(after.entries@[b] == before.entries@[b]);
                    }
                }
                assert forall|k: Seq<char>|
                    #![trigger after@.contains_key(k)]
                    place_of(after.listing(), k) == (if k == key@ {
                        before.listing().len() as int
                    } else if place_of(before.listing(), k) < before.listing().len() {
                        place_of(before.listing(), k)
                    } else {
                        after.listing().len() as int
                    }) by {
                    lemma_place_of(after.listing(), k);
                    lemma_place_of(before.listing(), k);
                    let a = place_of(after.listing(), k);
                    let b = place_of(before.listing(), k);
                    assert(forall|n: int|
                        0 <= n < before.listing().len() ==> (#[trigger] before.listing()[n])
                            == after.listing()[n]);
                    assert(after.listing()[before.listing().len() as int].0 == key@);
                    if k == key@ {
                        if a < before.listing().len() {
                            assert(before.listing()[a].0 == before.entries@[a].0@);
                        }
                    } else {
                        if a < b && a < before.listing().len() {
                            assert(before.listing()[a] == after.listing()[a]);
                        }
                        if b < a && b < before.listing().len() {
                            assert(before.listing()[b] == after.listing()[b]);
                        }
                    }
                }
                let changed = before@.insert(key@, value);
                assert forall|k: Seq<char>| #[trigger]
                    after@.contains_key(k) == changed.contains_key(k) by {
                    lemma_place_of(before.listing(), k);
                }
                assert forall|k: Seq<char>| #[trigger]
                    after@.contains_key(k) implies after@[k] == changed[k] by {
                    lemma_place_of(before.listing(), k);
                }
                assert(after@ =~= changed);
            }
        }
    }

    /// Takes what stands under `key` out of the table.
    pub fn remove(&mut self, key: &str) -> (value: Option<V>)
        requires
            old(self).wf(),
        ensures
            final(self).wf(),
            final(self)@ == old(self)@.remove(key@),
            match value {
                Some(v) => old(self)@.contains_key(key@) && v == old(self)@[key@],
                None => !old(self)@.contains_key(key@),
            },
    {
        let i: usize = self.place(key);
        if i < self.entries.len() {
            let ghost before = *self;
            let (_, value) = self.entries.remove(i);
            proof {
                let after = *self;
                assert(after.listing() =~= before.listing().remove(i as int));
                assert forall|a: int, b: int| 0 <= a < b < after.entries@.len() implies (
                #[trigger] after.entries@[a]).0@ != (#[trigger] after.entries@[b]).0@ by {
                    let oa = if a < i { a } else { a + 1 };
                    let ob = if b < i { b } else { b + 1 };
                    assert(after.entries@[a] == before.entries@[oa]);
                    assert(after.entries@[b] == before.entries@[ob]);
                }
                let changed = before@.remove(key@);
                assert forall|k: Seq<char>|
                    #![trigger after@.contains_key(k)]
                    after@.contains_key(k) == changed.contains_key(k) && (after@.contains_key(k)
                        ==> after@[k] == changed[k]) by {
                    lemma_place_of(after.listing(), k);
                    lemma_place_of(before.listing(), k);
                    let a = place_of(after.listing(), k);
                    let b = place_of(before.listing(), k);
                    if a < after.listing().len() {
                        let oa = if a < i { a } else { a + 1 };
                        assert(after.listing()[a] == before.listing()[oa]);
                        assert(before.listing()[oa].0 == before.entries@[oa].0@);
                        assert(before.listing()[i as int].0 == before.entries@[i as int].0@);
                        assert(k != key@);
                        assert(b <= oa);
                        assert(before.listing()[b].0 == before.entries@[b].0@);
                        assert(b == oa);
                    } else if b < before.listing().len() && k != key@ {
                        assert(before.listing()[i as int].0 == before.entries@[i as int].0@);
                        assert(b != i);
                        let nb = if b < i { b } else { b - 1 };
                        assert(after.listing()[nb] == before.listing()[b]);
                        assert(false);
                    }
                }
                assert(after@ =~= changed);
            }
            Some(value)
        } else {
            assert(self@.remove(key@) =~= self@);
            None
        }
    }
}

impl<V> View for Table<V> {
    type V = Map<Seq<char>, V>;

    open spec fn view(&self) -> Map<Seq<char>, V> {
        map_of(self.listing())
    }
}

} // verus!
