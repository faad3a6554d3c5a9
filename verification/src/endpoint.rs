//! Peer endpoints, and tables indexed by them.

use vstd::prelude::*;

verus! {

/// The address and port of a peer. An IPv4 address stands in its
/// IPv6-mapped form. The scope is that of an IPv6 address that is valid
/// on one link only, and 0 otherwise.
#[derive(Debug, Clone, Copy, PartialEq, Eq, Structural, Hash)]
pub struct Endpoint {
    pub ip: u128,
    pub port: u16,
    pub scope_id: u32,
}

/// One row of an `EndpointMap`.
pub struct Entry<V> {
    pub key: Endpoint,
    pub value: V,
}

/// A table from endpoints to values that keeps its rows in the order in
/// which their endpoints were first inserted. No endpoint has two rows.
pub struct EndpointMap<V> {
    entries: Vec<Entry<V>>,
}

/// The endpoints of a run of rows.
pub open spec fn keys_of<V>(entries: Seq<Entry<V>>) -> Seq<Endpoint> {
    entries.map_values(|entry: Entry<V>| entry.key)
}

/// The values of a run of rows.
pub open spec fn values_of<V>(entries: Seq<Entry<V>>) -> Seq<V> {
    entries.map_values(|entry: Entry<V>| entry.value)
}

impl<V> EndpointMap<V> {
    /// The endpoints of the table, in the order of their rows.
    pub closed spec fn keys(&self) -> Seq<Endpoint> {
        keys_of(self.entries@)
    }

    /// The values of the table, in the order of their rows.
    pub closed spec fn values(&self) -> Seq<V> {
        values_of(self.entries@)
    }

    /// Whether `key` has a row.
    pub open spec fn contains(&self, key: Endpoint) -> bool {
        self.keys().contains(key)
    }

    /// The value in the row of `key`.
    pub open spec fn value_of(&self, key: Endpoint) -> V
        recommends
            self.contains(key),
    {
        self.values()[self.keys().index_of(key)]
    }

    #[verifier::type_invariant]
    spec fn distinct(&self) -> bool {
        self.keys().no_duplicates()
    }

    /// An empty table.
    pub fn new() -> (table: EndpointMap<V>)
        ensures
            table.keys() == Seq::<Endpoint>::empty(),
            table.values() == Seq::<V>::empty(),
            forall|key: Endpoint| !table.contains(key),
    {
        let table = EndpointMap { entries: Vec::new() };
        assert(table.keys() =~= Seq::<Endpoint>::empty());
        assert(table.values() =~= Seq::<V>::empty());
        table
    }

    /// Moves the rows out, and leaves the table empty.
    fn take_entries(&mut self) -> (entries: Vec<Entry<V>>)
        ensures
            entries@ == old(self).entries@,
            final(self).entries@ == Seq::<Entry<V>>::empty(),
    {
        let mut table = EndpointMap { entries: Vec::new() };
        assert(table.keys() =~= Seq::<Endpoint>::empty());
        std::mem::swap(self, &mut table);
        table.entries
    }

    /// Number of rows.
    pub fn len(&self) -> (n: usize)
        ensures
            n == self.keys().len(),
            n == self.values().len(),
    {
        self.entries.len()
    }

    /// The row of `key`, if it has one.
    fn position(&self, key: Endpoint) -> (found: Option<usize>)
        ensures
            self.keys().len() == self.values().len(),
            self.keys().no_duplicates(),
            match found {
                Some(i) => {
                    &&& i < self.keys().len()
                    &&& self.keys()[i as int] == key
                    &&& self.keys().index_of(key) == i
                    &&& self.contains(key)
                },
                None => !self.contains(key),
            },
    {
        proof {
            use_type_invariant(self);
        }
        let mut i: usize = 0;
        while i < self.entries.len()
            invariant
                i <= self.entries@.len(),
                self.keys().len() == self.entries@.len(),
                forall|j: int| 0 <= j < i ==> self.keys()[j] != key,
                self.keys().no_duplicates(),
            decreases self.entries@.len() - i,
        {
            if self.entries[i].key == key {
                assert(self.keys()[i as int] == key);
                let ghost k = self.keys().index_of(key);
                assert(self.keys().contains(key));
                assert(self.keys()[k] == key);
                return Some(i);
            }
            i = i + 1;
        }
        None
    }

    /// Whether `key` has a row.
    pub fn contains_key(&self, key: Endpoint) -> (found: bool)
        ensures
            found == self.contains(key),
    {
        self.position(key).is_some()
    }

    /// The value in the row of `key`.
    pub fn get(&self, key: Endpoint) -> (found: Option<&V>)
        ensures
            match found {
                Some(value) => self.contains(key) && *value == self.value_of(key),
                None => !self.contains(key),
            },
    {
        match self.position(key) {
            Some(i) => Some(&self.entries[i].value),
            None => None,
        }
    }

    /// Gives `key` the value `value`. A new endpoint gets a row at the
    /// end; one that has a row keeps its place, and its former value is
    /// returned.
    pub fn insert(&mut self, key: Endpoint, value: V) -> (former: Option<V>)
        ensures
            final(self).contains(key),
            final(self).value_of(key) == value,
            forall|other: Endpoint|
                other != key ==> final(self).contains(other) == old(self).contains(other),
            forall|other: Endpoint|
                other != key && old(self).contains(other) ==> final(self).value_of(other) == old(
                    self,
                ).value_of(other),
            match former {
                Some(v) => {
                    &&& old(self).contains(key)
                    &&& v == old(self).value_of(key)
                    &&& final(self).keys() == old(self).keys()
                },
                None => {
                    &&& !old(self).contains(key)
                    &&& final(self).keys() == old(self).keys().push(key)
                },
            },
    {
        let ghost keys = self.keys();
        let ghost values = self.values();
        match self.position(key) {
            Some(i) => {
                let mut entries = self.take_entries();
                let entry = entries.remove(i);
                entries.insert(i, Entry { key, value });
                assert(keys_of(entries@) =~= keys);
                let table = EndpointMap { entries };
                proof {
                    assert(table.keys() =~= keys);
                    assert(table.values() =~= values.update(i as int, value));
                    assert(table.keys()[i as int] == key);
                    assert forall|other: Endpoint|
                        other != key && table.contains(other) implies table.value_of(other)
                        == values[keys.index_of(other)] by {
                        assert(keys.index_of(other) != i);
                    }
                }
                *self = table;
                Some(entry.value)
            },
            None => {
                let mut entries = self.take_entries();
                entries.push(Entry { key, value });
                proof {
                    let pushed = keys_of(entries@);
                    assert(pushed =~= keys.push(key));
                    assert forall|a: int, b: int|
                        0 <= a < pushed.len() && 0 <= b < pushed.len() && a != b implies pushed[a]
                        != pushed[b] by {
                        if a < keys.len() {
                            assert(keys[a] == pushed[a]);
                            assert(keys.contains(pushed[a]));
                        }
                        if b < keys.len() {
                            assert(keys[b] == pushed[b]);
                            assert(keys.contains(pushed[b]));
                        }
                    }
                }
                let table = EndpointMap { entries };
                proof {
                    assert(table.keys() =~= keys.push(key));
                    assert(table.values() =~= values.push(value));
                    let n = keys.len() as int;
                    assert(table.keys()[n] == key);
                    assert(table.keys().contains(key));
                    assert forall|other: Endpoint| other != key implies table.contains(other)
                        == keys.contains(other) by {
                        if keys.contains(other) {
                            let j = keys.index_of(other);
                            assert(table.keys()[j] == other);
                        }
                        if table.keys().contains(other) {
                            let j = table.keys().index_of(other);
                            assert(keys[j] == other);
                        }
                    }
                    assert forall|other: Endpoint|
                        table.contains(other) implies table.value_of(other) == if other == key {
                        value
                    } else {
                        values[keys.index_of(other)]
                    } by {
                        let j = table.keys().index_of(other);
                        if other == key {
                            assert(j == n);
                        } else {
                            assert(keys[j] == other);
                            let k = keys.index_of(other);
                            assert(keys[k] == other);
                            assert(table.keys()[k] == other);
                        }
                    }
                }
                *self = table;
                None
            },
        }
    }

    /// Takes the row of `key` out of the table, and returns its value.
    pub fn remove(&mut self, key: Endpoint) -> (former: Option<V>)
        ensures
            !final(self).contains(key),
            forall|other: Endpoint|
                other != key ==> final(self).contains(other) == old(self).contains(other),
            forall|other: Endpoint|
                other != key && old(self).contains(other) ==> final(self).value_of(other) == old(
                    self,
                ).value_of(other),
            match former {
                Some(v) => {
                    &&& old(self).contains(key)
                    &&& v == old(self).value_of(key)
                    &&& final(self).keys() == old(self).keys().remove(
                        old(self).keys().index_of(key),
                    )
                },
                None => !old(self).contains(key) && final(self).keys() == old(self).keys(),
            },
    {
        let ghost keys = self.keys();
        let ghost values = self.values();
        match self.position(key) {
            Some(i) => {
                let mut entries = self.take_entries();
                let entry = entries.remove(i);
                proof {
                    let left = keys_of(entries@);
                    assert(left =~= keys.remove(i as int));
                    assert forall|a: int, b: int|
                        0 <= a < left.len() && 0 <= b < left.len() && a != b implies left[a]
                        != left[b] by {
                        let a0 = if a < i { a } else { a + 1 };
                        let b0 = if b < i { b } else { b + 1 };
                        assert(left[a] == keys[a0] && left[b] == keys[b0]);
                    }
                }
                let table = EndpointMap { entries };
                proof {
                    assert(table.keys() =~= keys.remove(i as int));
                    assert(table.values() =~= values.remove(i as int));
                    assert forall|other: Endpoint| other != key implies table.contains(other)
                        == keys.contains(other) by {
                        if keys.contains(other) {
                            let j = keys.index_of(other);
                            assert(keys[j] == other);
                            if j < i {
                                assert(table.keys()[j] == other);
                            } else {
                                assert(table.keys()[j - 1] == other);
                            }
                        }
                        if table.keys().contains(other) {
                            let j = table.keys().index_of(other);
                            assert(table.keys()[j] == other);
                            if j < i {
                                assert(keys[j] == other);
                            } else {
                                assert(keys[j + 1] == other);
                            }
                        }
                    }
                    if table.keys().contains(key) {
                        let j = table.keys().index_of(key);
                        assert(table.keys()[j] == key);
                        if j < i {
                            assert(keys[j] == key);
                        } else {
                            assert(keys[j + 1] == key);
                        }
                    }
                    assert forall|other: Endpoint|
                        other != key && keys.contains(other) implies table.value_of(other)
                        == values[keys.index_of(other)] by {
                        let j = keys.index_of(other);
                        assert(keys[j] == other);
                        let k = table.keys().index_of(other);
                        assert(table.keys()[k] == other);
                        if k < i {
                            assert(keys[k] == other);
                        } else {
                            assert(keys[k + 1] == other);
                        }
                    }
                }
                *self = table;
                Some(entry.value)
            },
            None => None,
        }
    }

    /// Takes every row out of the table.
    pub fn clear(&mut self)
        ensures
            final(self).keys() == Seq::<Endpoint>::empty(),
            forall|key: Endpoint| !final(self).contains(key),
    {
        let table = EndpointMap { entries: Vec::new() };
        assert(table.keys() =~= Seq::<Endpoint>::empty());
        *self = table;
    }

    /// The endpoints of the table, in the order of their rows.
    pub fn endpoints(&self) -> (keys: Vec<Endpoint>)
        ensures
            keys@ == self.keys(),
            keys@.no_duplicates(),
    {
        proof {
            use_type_invariant(self);
        }
        let mut keys: Vec<Endpoint> = Vec::new();
        let mut i: usize = 0;
        while i < self.entries.len()
            invariant
                i <= self.entries@.len(),
                keys@ == self.keys().take(i as int),
            decreases self.entries@.len() - i,
        {
            keys.push(self.entries[i].key);
            i = i + 1;
            assert(keys@ =~= self.keys().take(i as int));
        }
        assert(self.keys().take(i as int) =~= self.keys());
        keys
    }
}

} // verus!
