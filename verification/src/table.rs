//! A table of values by keys made of text.

use vstd::prelude::*;

use crate::text::same;

verus! {

/// What can be the key of a [`Table`].
pub trait Key {
    /// The texts that the key is made of.
    spec fn id(&self) -> Seq<Seq<char>>;

    /// Whether two keys are the same.
    fn matches(&self, other: &Self) -> (r: bool)
        ensures
            r == (self.id() == other.id()),
    ;
}

impl Key for String {
    open spec fn id(&self) -> Seq<Seq<char>> {
        seq![self@]
    }

    fn matches(&self, other: &Self) -> (r: bool) {
        assert(self.id() == other.id() ==> self.id()[0] == other.id()[0]);
        same(self, other)
    }
}

impl Key for (String, String) {
    open spec fn id(&self) -> Seq<Seq<char>> {
        seq![self.0@, self.1@]
    }

    fn matches(&self, other: &Self) -> (r: bool) {
        assert(self.id() == other.id() ==> self.id()[0] == other.id()[0] && self.id()[1]
            == other.id()[1]);
        same(&self.0, &other.0) && same(&self.1, &other.1)
    }
}

/// A table in which each key stands at most once.
#[derive(Debug)]
pub struct Table<K, V> {
    entries: Vec<(K, V)>,
}

/// Where `key` stands among `entries`, or their number where it does not.
spec fn index_of<K: Key, V>(entries: Seq<(K, V)>, key: Seq<Seq<char>>) -> int
    decreases entries.len(),
{
    if entries.len() == 0 {
        0
    } else if entries[0].0.id() == key {
        0
    } else {
        1 + index_of(entries.skip(1), key)
    }
}

proof fn index_of_bounds<K: Key, V>(entries: Seq<(K, V)>, key: Seq<Seq<char>>)
    ensures
        0 <= index_of(entries, key) <= entries.len(),
        index_of(entries, key) < entries.len() ==> entries[index_of(entries, key)].0.id() == key,
        forall|j: int| 0 <= j < index_of(entries, key) ==> (#[trigger] entries[j]).0.id() != key,
    decreases entries.len(),
{
    if entries.len() > 0 && entries[0].0.id() != key {
        index_of_bounds(entries.skip(1), key);
        assert forall|j: int| 0 <= j < index_of(entries, key) implies (#[trigger] entries[j]).0.id()
            != key by {
            if j > 0 {
                assert(entries.skip(1)[j - 1] == entries[j]);
            }
        }
    }
}

proof fn index_of_is<K: Key, V>(entries: Seq<(K, V)>, key: Seq<Seq<char>>, i: int)
    requires
        0 <= i <= entries.len(),
        i < entries.len() ==> entries[i].0.id() == key,
        forall|j: int| 0 <= j < i ==> (#[trigger] entries[j]).0.id() != key,
    ensures
        index_of(entries, key) == i,
{
    index_of_bounds(entries, key);
    let k = index_of(entries, key);
    if k < i {
        assert(entries[k].0.id() != key);
    }
}

impl<K: Key, V> View for Table<K, V> {
    type V = Map<Seq<Seq<char>>, V>;

    closed spec fn view(&self) -> Map<Seq<Seq<char>>, V> {
        Map::new(
            |key: Seq<Seq<char>>| index_of(self.entries@, key) < self.entries@.len(),
            |key: Seq<Seq<char>>| self.entries@[index_of(self.entries@, key)].1,
        )
    }
}

impl<K: Key, V> Table<K, V> {
    /// Whether no key stands twice.
    pub closed spec fn wf(&self) -> bool {
        forall|i: int, j: int|
            #![trigger self.entries@[i], self.entries@[j]]
            0 <= i < j < self.entries@.len() ==> self.entries@[i].0.id()
                != self.entries@[j].0.id()
    }

    /// An empty table.
    pub fn new() -> (r: Self)
        ensures
            r.wf(),
            r@ == Map::<Seq<Seq<char>>, V>::empty(),
    {
        let r = Table { entries: Vec::new() };
        assert(r@ =~= Map::<Seq<Seq<char>>, V>::empty());
        r
    }

    fn find(&self, key: &K) -> (r: usize)
        ensures
            r == index_of(self.entries@, key.id()),
            r <= self.entries@.len(),
            r < self.entries@.len() ==> self.entries@[r as int].0.id() == key.id(),
    {
        let mut i: usize = 0;
        while i < self.entries.len() && !self.entries[i].0.matches(key)
            invariant
                i <= self.entries@.len(),
                forall|j: int|
                    0 <= j < i ==> (#[trigger] self.entries@[j]).0.id() != key.id(),
            decreases self.entries@.len() - i,
        {
            i += 1;
        }
        proof {
            index_of_is(self.entries@, key.id(), i as int);
        }
        i
    }

    /// The value of a key.
    pub fn get(&self, key: &K) -> (r: Option<&V>)
        ensures
            match r {
                Some(value) => self@.contains_key(key.id()) && *value == self@[key.id()],
                None => !self@.contains_key(key.id()),
            },
    {
        let i: usize = self.find(key);
        if i < self.entries.len() {
            Some(&self.entries[i].1)
        } else {
            None
        }
    }

    /// Whether a key is there.
    pub fn has(&self, key: &K) -> (r: bool)
        ensures
            r == self@.contains_key(key.id()),
    {
        self.find(key) < self.entries.len()
    }

    /// Removes a key, and gives the value that it had.
    pub fn remove(&mut self, key: &K) -> (r: Option<V>)
        requires
            old(self).wf(),
        ensures
            final(self).wf(),
            final(self)@ == old(self)@.remove(key.id()),
            match r {
                Some(value) => old(self)@.contains_key(key.id()) && value == old(self)@[key.id()],
                None => !old(self)@.contains_key(key.id()),
            },
    {
        let i: usize = self.find(key);
        if i < self.entries.len() {
            let ghost before = self.entries@;
            let (_, value) = self.entries.remove(i);
            proof {
                let after = self.entries@;
                assert forall|k: Seq<Seq<char>>| true implies #[trigger] self@.contains_key(k) == old(
                    self,
                )@.remove(key.id()).contains_key(k) && (self@.contains_key(k) ==> self@[k] == old(
                    self,
                )@[k]) by {
                    let at = index_of(before, k);
                    index_of_bounds(before, k);
                    if k == key.id() {
                        index_of_bounds(after, k);
                        let b = index_of(after, k);
                        if b < after.len() {
                            if b < i {
                                assert(after[b] == before[b]);
                            } else {
                                assert(after[b] == before[b + 1]);
                                assert(before[i as int].0.id() != before[b + 1].0.id());
                            }
                        }
                    } else if at < i {
                        assert(after[at] == before[at]);
                        assert forall|j: int| 0 <= j < at implies (#[trigger] after[j]).0.id()
                            != k by {
                            assert(after[j] == before[j]);
                        }
                        index_of_is(after, k, at);
                    } else {
                        assert(at != i);
                        if at < before.len() {
                            assert(after[at - 1] == before[at]);
                        }
                        assert forall|j: int| 0 <= j < at - 1 implies (#[trigger] after[j]).0.id()
                            != k by {
                            if j < i {
                                assert(after[j] == before[j]);
                            } else {
                                assert(after[j] == before[j + 1]);
                            }
                        }
                        index_of_is(after, k, at - 1);
                    }
                }
                assert(self@ =~= old(self)@.remove(key.id()));
                assert forall|a: int, b: int|
                    #![trigger after[a], after[b]]
                    0 <= a < b < after.len() implies after[a].0.id() != after[b].0.id() by {
                    let x = if a < i { a } else { a + 1 };
                    let y = if b < i { b } else { b + 1 };
                    assert(after[a] == before[x] && after[b] == before[y]);
                }
            }
            Some(value)
        } else {
            assert(self@ =~= old(self)@.remove(key.id()));
            None
        }
    }

    /// Sets the value of a key, and gives the one that it had.
    pub fn insert(&mut self, key: K, value: V) -> (r: Option<V>)
        requires
            old(self).wf(),
        ensures
            final(self).wf(),
            final(self)@ == old(self)@.insert(key.id(), value),
            match r {
                Some(before) => old(self)@.contains_key(key.id()) && before == old(
                    self,
                )@[key.id()],
                None => !old(self)@.contains_key(key.id()),
            },
    {
        let r = self.remove(&key);
        let ghost before = self.entries@;
        let ghost table = self@;
        let ghost id = key.id();
        proof {
            index_of_bounds(before, id);
            assert(!table.contains_key(id));
        }
        self.entries.push((key, value));
        proof {
            let after = self.entries@;
            assert forall|k: Seq<Seq<char>>| true implies #[trigger] self@.contains_key(k)
                == table.insert(id, value).contains_key(k) && (self@.contains_key(k) ==> self@[k]
                == table.insert(id, value)[k]) by {
                let at = index_of(before, k);
                index_of_bounds(before, k);
                assert forall|j: int| 0 <= j < at implies (#[trigger] after[j]).0.id() != k by {
                    assert(after[j] == before[j]);
                }
                if at < before.len() {
                    assert(after[at] == before[at]);
                    index_of_is(after, k, at);
                } else if k == id {
                    index_of_is(after, k, at);
                } else {
                    index_of_is(after, k, after.len() as int);
                }
            }
            assert(self@ =~= table.insert(id, value));
            assert(table.insert(id, value) =~= old(self)@.insert(id, value));
            assert forall|a: int, b: int|
                #![trigger after[a], after[b]]
                0 <= a < b < after.len() implies after[a].0.id() != after[b].0.id() by {
                assert(after[a] == before[a]);
                if b < before.len() {
                    assert(after[b] == before[b]);
                } else {
                    index_of_bounds(before, id);
                    assert(before[a].0.id() != id);
                }
            }
        }
        r
    }

    /// The number of keys.
    pub fn len(&self) -> (r: usize)
        ensures
            r == self.size(),
    {
        self.entries.len()
    }

    /// The number of keys.
    pub closed spec fn size(&self) -> nat {
        self.entries@.len()
    }

    /// The key and value at a position.
    pub closed spec fn nth(&self, i: int) -> (K, V) {
        self.entries@[i]
    }

    /// The key and value at a position; every key stands at one.
    pub fn at(&self, i: usize) -> (r: (&K, &V))
        requires
            i < self.size(),
        ensures
            (*r.0, *r.1) == self.nth(i as int),
    {
        (&self.entries[i].0, &self.entries[i].1)
    }

    /// What stands at the positions is what the table holds, each key once.
    pub proof fn positions(&self)
        requires
            self.wf(),
        ensures
            forall|i: int|
                0 <= i < self.size() ==> self@.contains_key((#[trigger] self.nth(i)).0.id())
                    && self@[self.nth(i).0.id()] == self.nth(i).1,
            forall|i: int, j: int|
                #![trigger self.nth(i), self.nth(j)]
                0 <= i < j < self.size() ==> self.nth(i).0.id() != self.nth(j).0.id(),
            forall|k: Seq<Seq<char>>| #[trigger]
                self@.contains_key(k) ==> exists|i: int|
                    0 <= i < self.size() && (#[trigger] self.nth(i)).0.id() == k,
    {
        assert forall|i: int| 0 <= i < self.size() implies self@.contains_key(
            (#[trigger] self.nth(i)).0.id(),
        ) && self@[self.nth(i).0.id()] == self.nth(i).1 by {
            let id = self.nth(i).0.id();
            assert forall|j: int| 0 <= j < i implies (#[trigger] self.entries@[j]).0.id() != id by {
                assert(self.entries@[j].0.id() != self.entries@[i].0.id());
            }
            index_of_is(self.entries@, id, i);
        }
        assert forall|k: Seq<Seq<char>>| #[trigger] self@.contains_key(k) implies exists|i: int|
            0 <= i < self.size() && (#[trigger] self.nth(i)).0.id() == k by {
            index_of_bounds(self.entries@, k);
            assert(self.nth(index_of(self.entries@, k)).0.id() == k);
        }
        assert forall|i: int, j: int|
            #![trigger self.nth(i), self.nth(j)]
            0 <= i < j < self.size() implies self.nth(i).0.id() != self.nth(j).0.id() by {
            assert(self.entries@[i].0.id() != self.entries@[j].0.id());
        }
    }
}

} // verus!
