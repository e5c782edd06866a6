//! Storage entries keyed by address.
use vstd::prelude::*;

use crate::address::Address;

verus! {

/// The map that a list of entries stands for. A later entry wins over an earlier one.
spec fn contents<V>(entries: Seq<(Address, V)>) -> Map<Address, V>
    decreases entries.len(),
{
    if entries.len() == 0 {
        Map::empty()
    } else {
        contents(entries.drop_last()).insert(entries.last().0, entries.last().1)
    }
}

/// No address has two entries.
spec fn distinct_keys<V>(entries: Seq<(Address, V)>) -> bool {
    forall|i: int, j: int|
        0 <= i < j < entries.len() ==> (#[trigger] entries[i]).0 != (#[trigger] entries[j]).0
}

proof fn lemma_contents_finite<V>(entries: Seq<(Address, V)>)
    ensures
        contents(entries).dom().finite(),
    decreases entries.len(),
{
    if entries.len() > 0 {
        lemma_contents_finite(entries.drop_last());
    }
}

proof fn lemma_contents_absent<V>(entries: Seq<(Address, V)>, key: Address)
    requires
        forall|i: int| 0 <= i < entries.len() ==> (#[trigger] entries[i]).0 != key,
    ensures
        !contents(entries).dom().contains(key),
    decreases entries.len(),
{
    if entries.len() > 0 {
        let rest = entries.drop_last();
        assert forall|i: int| 0 <= i < rest.len() implies (#[trigger] rest[i]).0 != key by {
            assert(rest[i] == entries[i]);
        }
        lemma_contents_absent(rest, key);
        assert(entries[entries.len() - 1].0 != key);
    }
}

proof fn lemma_contents_present<V>(entries: Seq<(Address, V)>, at: int)
    requires
        distinct_keys(entries),
        0 <= at < entries.len(),
    ensures
        contents(entries).dom().contains(entries[at].0),
        contents(entries)[entries[at].0] == entries[at].1,
    decreases entries.len(),
{
    if at < entries.len() - 1 {
        lemma_contents_present(entries.drop_last(), at);
        assert(entries[at].0 != entries[entries.len() - 1].0);
    }
}

proof fn lemma_contents_update<V>(entries: Seq<(Address, V)>, at: int, value: V)
    requires
        distinct_keys(entries),
        0 <= at < entries.len(),
    ensures
        distinct_keys(entries.update(at, (entries[at].0, value))),
        contents(entries.update(at, (entries[at].0, value))) == contents(entries).insert(
            entries[at].0,
            value,
        ),
    decreases entries.len(),
{
    let key = entries[at].0;
    let changed = entries.update(at, (key, value));
    let last = entries.last();
    if at < entries.len() - 1 {
        lemma_contents_update(entries.drop_last(), at, value);
        assert(changed.drop_last() =~= entries.drop_last().update(at, (key, value)));
        assert(key != entries[entries.len() - 1].0);
        assert(contents(changed) =~= contents(entries).insert(key, value));
    } else {
        assert(changed.drop_last() =~= entries.drop_last());
        assert(contents(changed) =~= contents(entries).insert(key, value));
    }
}

proof fn lemma_contents_remove<V>(entries: Seq<(Address, V)>, at: int)
    requires
        distinct_keys(entries),
        0 <= at < entries.len(),
    ensures
        distinct_keys(entries.remove(at)),
        contents(entries.remove(at)) == contents(entries).remove(entries[at].0),
    decreases entries.len(),
{
    let key = entries[at].0;
    let changed = entries.remove(at);
    let rest = entries.drop_last();
    if at < entries.len() - 1 {
        lemma_contents_remove(rest, at);
        assert(changed.drop_last() =~= rest.remove(at));
        assert(key != entries[entries.len() - 1].0);
        assert(contents(changed) =~= contents(entries).remove(key));
    } else {
        assert(changed =~= rest);
        assert forall|i: int| 0 <= i < rest.len() implies (#[trigger] rest[i]).0 != key by {
            assert(rest[i] == entries[i]);
        }
        lemma_contents_absent(rest, key);
        assert(contents(changed) =~= contents(entries).remove(key));
    }
}

/// Storage entries of one kind, keyed by address. An address without an entry is simply absent.
pub struct AddressTable<V> {
    entries: Vec<(Address, V)>,
}

impl<V> View for AddressTable<V> {
    type V = Map<Address, V>;

    closed spec fn view(&self) -> Map<Address, V> {
        contents(self.entries@)
    }
}

impl<V> AddressTable<V> {
    #[verifier::type_invariant]
    spec fn well_formed(self) -> bool {
        distinct_keys(self.entries@)
    }

    /// A table without entries.
    pub fn new() -> (table: AddressTable<V>)
        ensures
            table@ == Map::<Address, V>::empty(),
    {
        AddressTable { entries: Vec::new() }
    }

    /// A table never holds infinitely many entries.
    pub proof fn lemma_finite(self)
        ensures
            self@.dom().finite(),
    {
        lemma_contents_finite(self.entries@);
    }

    fn position(entries: &Vec<(Address, V)>, key: &Address) -> (at: Option<usize>)
        ensures
            match at {
                Some(i) => i < entries.len() && entries[i as int].0 == *key,
                None => forall|i: int|
                    0 <= i < entries.len() ==> (#[trigger] entries@[i]).0 != *key,
            },
    {
        let mut i: usize = 0;
        while i < entries.len()
            invariant
                i <= entries.len(),
                forall|j: int| 0 <= j < i ==> (#[trigger] entries@[j]).0 != *key,
            decreases entries.len() - i,
        {
            if entries[i].0 == *key {
                return Some(i);
            }
            i += 1;
        }
        None
    }

    /// The entry of `key`, if it has one.
    pub fn get(&self, key: &Address) -> (value: Option<&V>)
        ensures
            match value {
                Some(v) => self@.dom().contains(*key) && *v == self@[*key],
                None => !self@.dom().contains(*key),
            },
    {
        proof {
            use_type_invariant(self);
        }
        match Self::position(&self.entries, key) {
            Some(i) => {
                proof {
                    lemma_contents_present(self.entries@, i as int);
                }
                Some(&self.entries[i].1)
            },
            None => {
                proof {
                    lemma_contents_absent(self.entries@, *key);
                }
                None
            },
        }
    }

    /// Stores `value` as the entry of `key`, over any entry it had.
    pub fn set(&mut self, key: Address, value: V)
        ensures
            final(self)@ == old(self)@.insert(key, value),
    {
        proof {
            use_type_invariant(&*self);
        }
        let mut entries: Vec<(Address, V)> = Vec::new();
        std::mem::swap(&mut entries, &mut self.entries);
        let ghost before = entries@;
        match Self::position(&entries, &key) {
            Some(i) => {
                proof {
                    lemma_contents_update(before, i as int, value);
                }
                entries.set(i, (key, value));
            },
            None => {
                entries.push((key, value));
                assert(entries@.drop_last() =~= before);
                assert(distinct_keys(entries@));
            },
        }
        self.entries = entries;
    }

    /// Takes the entry of `key` out of the table, if it has one.
    pub fn remove(&mut self, key: &Address) -> (value: Option<V>)
        ensures
            final(self)@ == old(self)@.remove(*key),
            match value {
                Some(v) => old(self)@.dom().contains(*key) && v == old(self)@[*key],
                None => !old(self)@.dom().contains(*key),
            },
    {
        proof {
            use_type_invariant(&*self);
        }
        let mut entries: Vec<(Address, V)> = Vec::new();
        std::mem::swap(&mut entries, &mut self.entries);
        let ghost before = entries@;
        match Self::position(&entries, key) {
            Some(i) => {
                proof {
                    lemma_contents_remove(before, i as int);
                    lemma_contents_present(before, i as int);
                }
                let (_, value) = entries.remove(i);
                self.entries = entries;
                Some(value)
            },
            None => {
                proof {
                    lemma_contents_absent(before, *key);
                    assert(contents(before).remove(*key) =~= contents(before));
                }
                self.entries = entries;
                None
            },
        }
    }
}

} // verus!
