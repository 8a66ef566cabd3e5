//! Named values in the order in which their names first came, found by name
//! in constant time.

use vstd::hash_map::StringHashMap;
use vstd::prelude::*;

verus! {

/// Whether no name occurs twice in `entries`.
pub open spec fn distinct<V>(entries: Seq<(Seq<char>, V)>) -> bool {
    forall|i: int, j: int|
        0 <= i < j < entries.len() ==> (#[trigger] entries[i]).0 != (#[trigger] entries[j]).0
}

/// Whether `entries` holds `name`.
pub open spec fn holds<V>(entries: Seq<(Seq<char>, V)>, name: Seq<char>) -> bool {
    exists|i: int| 0 <= i < entries.len() && (#[trigger] entries[i]).0 == name
}

/// The place of `name` in `entries`, where it is held.
pub open spec fn slot_of<V>(entries: Seq<(Seq<char>, V)>, name: Seq<char>) -> int {
    choose|i: int| 0 <= i < entries.len() && (#[trigger] entries[i]).0 == name
}

/// The value that `entries` holds under `name`, where it holds one.
pub open spec fn value_of<V>(entries: Seq<(Seq<char>, V)>, name: Seq<char>) -> V {
    entries[slot_of(entries, name)].1
}

/// `entries` with `value` under `name`: in the place that `name` has, or at
/// the end where `name` is new.
pub open spec fn put<V>(entries: Seq<(Seq<char>, V)>, name: Seq<char>, value: V) -> Seq<
    (Seq<char>, V),
> {
    if holds(entries, name) {
        entries.update(slot_of(entries, name), (name, value))
    } else {
        entries.push((name, value))
    }
}

/// The entries as a map from each name to its value.
pub open spec fn as_map<V>(entries: Seq<(Seq<char>, V)>) -> Map<Seq<char>, V> {
    Map::new(|name: Seq<char>| holds(entries, name), |name: Seq<char>| value_of(entries, name))
}

/// Where no name occurs twice, the place of a name is the only one that holds it.
pub proof fn lemma_slot_is_unique<V>(entries: Seq<(Seq<char>, V)>, i: int)
    requires
        distinct(entries),
        0 <= i < entries.len(),
    ensures
        holds(entries, entries[i].0),
        slot_of(entries, entries[i].0) == i,
        value_of(entries, entries[i].0) == entries[i].1,
{
    let j = slot_of(entries, entries[i].0);
    assert(0 <= j < entries.len() && entries[j].0 == entries[i].0);
    if j < i {
        assert(entries[j].0 != entries[i].0);
    } else if i < j {
        assert(entries[i].0 != entries[j].0);
    }
}

/// `put` keeps the names distinct and the other entries as they were; the
/// name then holds the value.
pub proof fn lemma_put<V>(entries: Seq<(Seq<char>, V)>, name: Seq<char>, value: V)
    requires
        distinct(entries),
    ensures
        distinct(put(entries, name, value)),
        holds(put(entries, name, value), name),
        value_of(put(entries, name, value), name) == value,
        forall|other: Seq<char>|
            other != name ==> holds(put(entries, name, value), other) == holds(entries, other),
        forall|other: Seq<char>|
            other != name && holds(entries, other) ==> value_of(put(entries, name, value), other)
                == value_of(entries, other),
        holds(entries, name) ==> put(entries, name, value).len() == entries.len(),
        !holds(entries, name) ==> put(entries, name, value).len() == entries.len() + 1,
{
    let after = put(entries, name, value);
    let at = if holds(entries, name) {
        slot_of(entries, name)
    } else {
        entries.len() as int
    };
    assert(0 <= at < after.len() && after[at] == (name, value));
    assert forall|i: int, j: int| 0 <= i < j < after.len() implies (#[trigger] after[i]).0 != (
    #[trigger] after[j]).0 by {
        if i != at && j != at {
            assert(after[i] == entries[i] && after[j] == entries[j]);
        } else if i == at {
            assert(after[j] == entries[j]);
            if holds(entries, name) {
                assert(entries[i].0 == name);
            }
        } else {
            assert(after[i] == entries[i]);
            if holds(entries, name) {
                assert(entries[j].0 == name);
            }
        }
    }
    lemma_slot_is_unique(after, at);
    assert forall|other: Seq<char>| other != name implies holds(after, other) == holds(
        entries,
        other,
    ) by {
        if holds(entries, other) {
            let k = slot_of(entries, other);
            assert(after[k] == entries[k]);
        }
        if holds(after, other) {
            let k = slot_of(after, other);
            assert(k != at);
            assert(after[k] == entries[k]);
        }
    }
    assert forall|other: Seq<char>| other != name && holds(entries, other) implies value_of(
        after,
        other,
    ) == value_of(entries, other) by {
        let k = slot_of(entries, other);
        assert(after[k] == entries[k]);
        lemma_slot_is_unique(after, k);
    }
}

/// As a map, `put` is an insertion: the name gets the value, and every other
/// name keeps what it had.
pub proof fn lemma_put_is_insert<V>(entries: Seq<(Seq<char>, V)>, name: Seq<char>, value: V)
    requires
        distinct(entries),
    ensures
        as_map(put(entries, name, value)) == as_map(entries).insert(name, value),
{
    lemma_put(entries, name, value);
    assert(as_map(put(entries, name, value)) =~= as_map(entries).insert(name, value));
}

/// Values under names. A name is held once, the entries keep the order in
/// which their names were added, and none is ever removed.
pub struct Table<V> {
    index: StringHashMap<usize>,
    names: Vec<String>,
    values: Vec<V>,
}

impl<V> Table<V> {
    /// The names with their values, in the order in which the names were added.
    pub closed spec fn entries(&self) -> Seq<(Seq<char>, V)> {
        Seq::new(self.names.len() as nat, |i: int| (self.names[i]@, self.values[i]))
    }

    /// The validity of a table: the index finds each name at its place. It
    /// implies that no name occurs twice.
    pub closed spec fn wf(&self) -> bool {
        &&& self.names.len() == self.values.len()
        &&& forall|i: int|
            0 <= i < self.names.len() ==> self.index@.contains_key(#[trigger] self.names[i]@)
                && self.index@[self.names[i]@] == i
        &&& forall|name: Seq<char>| #[trigger]
            self.index@.contains_key(name) ==> self.index@[name] < self.names.len()
                && self.names[self.index@[name] as int]@ == name
    }

    /// In a valid table no name occurs twice.
    pub proof fn lemma_distinct(&self)
        requires
            self.wf(),
        ensures
            distinct(self.entries()),
    {
        assert forall|i: int, j: int| 0 <= i < j < self.entries().len() implies (
        #[trigger] self.entries()[i]).0 != (#[trigger] self.entries()[j]).0 by {
            assert(self.index@[self.names[i]@] == i);
            assert(self.index@[self.names[j]@] == j);
        }
    }

    /// A table without entries.
    pub fn new() -> (table: Table<V>)
        ensures
            table.wf(),
            table.entries() == Seq::<(Seq<char>, V)>::empty(),
    {
        let table = Table { index: StringHashMap::new(), names: Vec::new(), values: Vec::new() };
        assert(table.entries() =~= Seq::<(Seq<char>, V)>::empty());
        table
    }

    /// The number of entries.
    pub fn len(&self) -> (n: usize)
        requires
            self.wf(),
        ensures
            n == self.entries().len(),
    {
        self.names.len()
    }

    /// The place of `name`, if the table holds it.
    pub fn find(&self, name: &str) -> (slot: Option<usize>)
        requires
            self.wf(),
        ensures
            slot is Some == holds(self.entries(), name@),
            slot is Some ==> slot->0 == slot_of(self.entries(), name@),
            slot is Some ==> slot->0 < self.entries().len(),
    {
        proof {
            self.lemma_distinct();
        }
        match self.index.get(name) {
            Some(slot) => {
                proof {
                    assert(self.entries()[*slot as int].0 == name@);
                    lemma_slot_is_unique(self.entries(), *slot as int);
                }
                Some(*slot)
            },
            None => {
                proof {
                    if holds(self.entries(), name@) {
                        let i = slot_of(self.entries(), name@);
                        assert(self.entries()[i].0 == self.names[i]@);
                    }
                }
                None
            },
        }
    }

    /// The name at a place.
    pub fn name(&self, slot: usize) -> (name: &String)
        requires
            self.wf(),
            slot < self.entries().len(),
        ensures
            name@ == self.entries()[slot as int].0,
    {
        &self.names[slot]
    }

    /// The value at a place.
    pub fn value(&self, slot: usize) -> (value: &V)
        requires
            self.wf(),
            slot < self.entries().len(),
        ensures
            *value == self.entries()[slot as int].1,
    {
        &self.values[slot]
    }

    /// The value at a place, to be changed there.
    pub fn value_mut(&mut self, slot: usize) -> (value: &mut V)
        requires
            old(self).wf(),
            slot < old(self).entries().len(),
        ensures
            *value == old(self).entries()[slot as int].1,
            final(self).wf(),
            final(self).entries() == old(self).entries().update(
                slot as int,
                (old(self).entries()[slot as int].0, *final(value)),
            ),
    {
        let ghost before = *self;
        let value = &mut self.values[slot];
        proof {
            let after = Table {
                index: before.index,
                names: before.names,
                values: after_borrow(self.values),
            };
            assert(after.entries() =~= before.entries().update(
                slot as int,
                (before.entries()[slot as int].0, *final(value)),
            ));
        }
        value
    }

    /// Adds a name that the table does not hold yet, with its value, at the end.
    pub fn push(&mut self, name: String, value: V) -> (slot: usize)
        requires
            old(self).wf(),
            !holds(old(self).entries(), name@),
        ensures
            final(self).wf(),
            final(self).entries() == old(self).entries().push((name@, value)),
            slot == old(self).entries().len(),
    {
        let slot: usize = self.names.len();
        proof {
            if self.index@.contains_key(name@) {
                let i = self.index@[name@] as int;
                assert(old(self).entries()[i].0 == name@);
            }
        }
        self.index.insert(name.clone(), slot);
        self.names.push(name);
        self.values.push(value);
        proof {
            assert(self.entries() =~= old(self).entries().push((name@, value)));
            assert forall|i: int| 0 <= i < self.names.len() implies self.index@.contains_key(
                #[trigger] self.names[i]@,
            ) && self.index@[self.names[i]@] == i by {
                if i < slot {
                    assert(old(self).names[i]@ == self.names[i]@);
                    assert(old(self).entries()[i].0 == self.names[i]@);
                }
            }
        }
        slot
    }
}

} // verus!
