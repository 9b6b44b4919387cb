//! A map with keys that are compared by what they stand for.

use vstd::prelude::*;

verus! {

/// A key of a [`Table`]: two keys are the same where their views are.
pub trait TableKey: View + Sized {
    /// Do the two keys stand for the same?
    fn same(&self, other: &Self) -> (same: bool)
        ensures
            same == (self@ == other@),
    ;
}

impl TableKey for String {
    fn same(&self, other: &Self) -> bool {
        *self == *other
    }
}

/// A map that keeps its keys in the order in which they first came.
pub struct Table<K: TableKey, V> {
    entries: Vec<(K, V)>,
}

impl<K: TableKey, V> View for Table<K, V> {
    type V = Map<K::V, V>;

    closed spec fn view(&self) -> Map<K::V, V> {
        Map::new(
            |key: K::V| self.order().contains(key),
            |key: K::V| self.entries@[self.order().index_of(key)].1,
        )
    }
}

impl<K: TableKey, V> Table<K, V> {
    /// No key occurs twice.
    #[verifier::type_invariant]
    spec fn distinct(self) -> bool {
        self.order().no_duplicates()
    }

    /// The keys, in the order in which they are walked.
    pub closed spec fn order(self) -> Seq<K::V> {
        Seq::new(self.entries@.len(), |i: int| self.entries@[i].0@)
    }

    /// The table without entries.
    pub fn new() -> (table: Self)
        ensures
            table@ == Map::<K::V, V>::empty(),
            table.order() == Seq::<K::V>::empty(),
    {
        let table = Table { entries: Vec::new() };
        assert(table.order() =~= Seq::<K::V>::empty());
        assert(table@ =~= Map::<K::V, V>::empty());
        table
    }

    /// How many keys there are. They are walked each once, and no other.
    pub fn len(&self) -> (len: usize)
        ensures
            len == self.order().len(),
            self.order().no_duplicates(),
            self.order().to_set() == self@.dom(),
    {
        proof {
            use_type_invariant(self);
            assert(self.order().to_set() =~= self@.dom());
        }
        self.entries.len()
    }

    /// The entry whose key is walked at position `i`.
    pub fn entry(&self, i: usize) -> (entry: (&K, &V))
        requires
            i < self.order().len(),
        ensures
            entry.0@ == self.order()[i as int],
            *entry.1 == self@[self.order()[i as int]],
    {
        proof {
            use_type_invariant(self);
            assert(self.order()[i as int] == self.entries@[i as int].0@);
            assert(self.order().contains(self.order()[i as int]));
        }
        (&self.entries[i].0, &self.entries[i].1)
    }

    /// Where `key` stands.
    fn position(&self, key: &K) -> (found: Option<usize>)
        ensures
            match found {
                Some(i) => i < self.order().len() && self.order()[i as int] == key@,
                None => !self@.contains_key(key@),
            },
    {
        let mut i: usize = 0;
        while i < self.entries.len()
            invariant
                i <= self.entries@.len(),
                forall|j: int| 0 <= j < i ==> self.order()[j] != key@,
            decreases self.entries@.len() - i,
        {
            if self.entries[i].0.same(key) {
                return Some(i);
            }
            i += 1;
        }
        None
    }

    /// The value under `key`.
    pub fn get(&self, key: &K) -> (value: Option<&V>)
        ensures
            match value {
                Some(v) => self@.contains_key(key@) && self@[key@] == *v,
                None => !self@.contains_key(key@),
            },
    {
        match self.position(key) {
            Some(i) => {
                proof {
                    use_type_invariant(self);
                    assert(self.order().contains(key@));
                }
                Some(&self.entries[i].1)
            },
            None => None,
        }
    }

    /// Is there a value under `key`?
    pub fn contains_key(&self, key: &K) -> (found: bool)
        ensures
            found == self@.contains_key(key@),
    {
        self.get(key).is_some()
    }

    /// Puts `value` under `key`, in place of what stood there. A new key is walked last.
    pub fn insert(&mut self, key: K, value: V)
        ensures
            final(self)@ == old(self)@.insert(key@, value),
            final(self).order() == (if old(self)@.contains_key(key@) {
                old(self).order()
            } else {
                old(self).order().push(key@)
            }),
    {
        proof {
            use_type_invariant(&*self);
        }
        let ghost before = *self;
        let found = self.position(&key);
        let mut entries: Vec<(K, V)> = Vec::new();
        std::mem::swap(&mut entries, &mut self.entries);
        match found {
            Some(i) => {
                entries.set(i, (key, value));
            },
            None => {
                entries.push((key, value));
            },
        }
        let ghost after = Table { entries };
        proof {
            if found is Some {
                assert(before.order().contains(key@));
                assert(after.order() =~= before.order());
            } else {
                assert(after.order() =~= before.order().push(key@));
                assert(!before.order().contains(key@));
                assert(after.order().no_duplicates());
            }
            assert forall|k: K::V| after.order().contains(k) <==> before.order().contains(k)
                || k == key@ by {
                if before.order().contains(k) {
                    let i = before.order().index_of(k);
                    assert(after.order()[i] == k);
                }
                if k == key@ && found is None {
                    assert(after.order()[before.order().len() as int] == k);
                }
            }
            assert forall|k: K::V| before.order().contains(k) && k != key@ implies
                after.order().index_of(k) == before.order().index_of(k) by {
                let i = before.order().index_of(k);
                let j = after.order().index_of(k);
                assert(after.order()[i] == k);
                assert(after.order()[j] == k);
            }
            assert(after.order().contains(key@));
            assert(after@ =~= before@.insert(key@, value));
        }
        self.entries = entries;
    }
}

} // verus!
