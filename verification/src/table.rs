//! A small keyed table: at most one value for each key, found by search.

use ink_prelude::vec::Vec;
use vstd::prelude::*;

use crate::account::AccountId;

verus! {

/// Something a table can be searched by.
pub trait Key {
    /// What the key stands for in a table's view.
    type Id;

    /// The key as a mathematical value.
    spec fn id(&self) -> Self::Id;

    /// Whether two keys stand for the same thing.
    fn same(&self, other: &Self) -> (same: bool)
        ensures
            same == (self.id() == other.id()),
    ;
}

impl Key for AccountId {
    type Id = AccountId;

    open spec fn id(&self) -> AccountId {
        *self
    }

    fn same(&self, other: &AccountId) -> (same: bool) {
        *self == *other
    }
}

/// An owner and the name of one of their layers.
impl Key for (AccountId, String) {
    type Id = (AccountId, Seq<char>);

    open spec fn id(&self) -> (AccountId, Seq<char>) {
        (self.0, self.1@)
    }

    fn same(&self, other: &(AccountId, String)) -> (same: bool) {
        self.0 == other.0 && self.1 == other.1
    }
}

/// A table from keys to values. No key stands in it twice.
pub struct Table<K, V> {
    /// The entries, in the order in which their keys first came.
    pub entries: Vec<(K, V)>,
}

impl<K: Key, V: DeepView> Table<K, V> {
    /// No two entries have the same key.
    pub open spec fn wf(&self) -> bool {
        forall|i: int, j: int|
            0 <= i < j < self.entries.len() ==> self.entries[i].0.id() != self.entries[j].0.id()
    }

    /// Whether some entry has the key `id`.
    pub open spec fn holds(&self, id: K::Id) -> bool {
        exists|i: int| 0 <= i < self.entries.len() && self.entries[i].0.id() == id
    }

    /// Where the entry with the key `id` stands.
    pub open spec fn slot(&self, id: K::Id) -> int {
        choose|i: int| 0 <= i < self.entries.len() && self.entries[i].0.id() == id
    }

    /// The table as a map from each key to its value.
    pub open spec fn view(&self) -> Map<K::Id, V::V> {
        Map::new(|id: K::Id| self.holds(id), |id: K::Id| self.entries[self.slot(id)].1.deep_view())
    }

    /// In a table without repeated keys, an entry is found where it stands.
    pub proof fn lemma_slot(&self, i: int)
        requires
            self.wf(),
            0 <= i < self.entries.len(),
        ensures
            self.holds(self.entries[i].0.id()),
            self.slot(self.entries[i].0.id()) == i,
    {
    }

    /// A table without entries.
    pub fn new() -> (table: Table<K, V>)
        ensures
            table.wf(),
            table@ == Map::<K::Id, V::V>::empty(),
    {
        Table { entries: Vec::new() }
    }

    /// Where the entry for `key` stands, if there is one.
    fn find(&self, key: &K) -> (found: Option<usize>)
        ensures
            match found {
                Some(i) => i < self.entries.len() && self.entries[i as int].0.id() == key.id(),
                None => !self.holds(key.id()),
            },
    {
        let mut i: usize = 0;
        while i < self.entries.len()
            invariant
                i <= self.entries.len(),
                forall|j: int| 0 <= j < i ==> self.entries[j].0.id() != key.id(),
            decreases self.entries.len() - i,
        {
            if self.entries[i].0.same(key) {
                return Some(i);
            }
            i += 1;
        }
        None
    }

    /// The value stored for `key`, if there is one.
    pub fn get(&self, key: &K) -> (value: Option<&V>)
        requires
            self.wf(),
        ensures
            match value {
                Some(v) => self@.dom().contains(key.id()) && v.deep_view() == self@[key.id()],
                None => !self@.dom().contains(key.id()),
            },
    {
        match self.find(key) {
            Some(i) => {
                proof {
                    self.lemma_slot(i as int);
                }
                Some(&self.entries[i].1)
            },
            None => None,
        }
    }

    /// Stores `value` for `key`, in place of any value stored for it before.
    pub fn insert(&mut self, key: K, value: V)
        requires
            old(self).wf(),
        ensures
            final(self).wf(),
            final(self)@ == old(self)@.insert(key.id(), value.deep_view()),
    {
        let ghost id = key.id();
        let ghost stored = value.deep_view();
        let ghost at: int;
        match self.find(&key) {
            Some(i) => {
                self.entries[i] = (key, value);
                proof {
                    at = i as int;
                }
            },
            None => {
                self.entries.push((key, value));
                proof {
                    at = self.entries.len() - 1;
                }
            },
        }
        proof {
            assert(self.entries[at].0.id() == id);
            assert forall|k: int| 0 <= k < old(self).entries.len() implies self.entries[k].0.id()
                == old(self).entries[k].0.id() by {}
            assert forall|other: K::Id|
                self.holds(other) <==> (other == id || old(self).holds(other)) by {}
            assert forall|other: K::Id| self.holds(other) implies self@[other] == old(self)@.insert(
                id,
                stored,
            )[other] by {
                let k: int = self.slot(other);
                self.lemma_slot(k);
                if other != id {
                    old(self).lemma_slot(k);
                }
            }
        }
    }
}

} // verus!
