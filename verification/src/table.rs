//! A small table from text keys to values, kept as a list in which no key occurs twice.

use vstd::prelude::*;

use crate::text::str_eq;

verus! {

/// A table from text keys to values.
pub struct Table<V> {
    keys: Vec<String>,
    values: Vec<V>,
}

impl<V: Copy> Table<V> {
    /// How many entries the table holds.
    pub closed spec fn count(&self) -> nat {
        self.keys.len() as nat
    }

    /// The key of the entry at a position.
    pub closed spec fn key_at(&self, i: int) -> Seq<char> {
        self.keys@[i]@
    }

    /// The value of the entry at a position.
    pub closed spec fn value_at(&self, i: int) -> V {
        self.values@[i]
    }

    /// Keys and values pair up, and no key occurs twice.
    pub closed spec fn wf(&self) -> bool {
        &&& self.keys.len() == self.values.len()
        &&& forall|i: int, j: int|
            0 <= i < j < self.keys.len() ==> (#[trigger] self.keys@[i])@ != (#[trigger] self.keys@[j])@
    }

    /// Whether some entry has the key.
    pub open spec fn has(&self, key: Seq<char>) -> bool {
        exists|i: int| 0 <= i < self.count() && #[trigger] self.key_at(i) == key
    }

    /// The position of the entry with the key.
    pub open spec fn position(&self, key: Seq<char>) -> int {
        choose|i: int| 0 <= i < self.count() && #[trigger] self.key_at(i) == key
    }

    /// The table as a map.
    pub open spec fn view(&self) -> Map<Seq<char>, V> {
        Map::new(|key: Seq<char>| self.has(key), |key: Seq<char>| self.value_at(self.position(key)))
    }

    /// The entry at a position is what the map holds under its key.
    pub proof fn lemma_entry(&self, i: int)
        requires
            self.wf(),
            0 <= i < self.count(),
        ensures
            self@.contains_key(self.key_at(i)),
            self@[self.key_at(i)] == self.value_at(i),
            self.position(self.key_at(i)) == i,
    {
        let key = self.key_at(i);
        assert(self.has(key));
        let p = self.position(key);
        assert(0 <= p < self.count() && self.key_at(p) == key);
        if p < i {
            assert(self.keys@[p]@ != self.keys@[i]@);
        } else if i < p {
            assert(self.keys@[i]@ != self.keys@[p]@);
        }
    }

    /// An empty table.
    pub fn new() -> (table: Self)
        ensures
            table.wf(),
            table@ == Map::<Seq<char>, V>::empty(),
            table.count() == 0,
    {
        let table = Table { keys: Vec::new(), values: Vec::new() };
        assert(table@ =~= Map::<Seq<char>, V>::empty());
        table
    }

    /// The number of entries.
    pub fn len(&self) -> (n: usize)
        requires
            self.wf(),
        ensures
            n == self.count(),
    {
        self.keys.len()
    }

    /// The value at a position.
    pub fn value(&self, i: usize) -> (v: V)
        requires
            self.wf(),
            i < self.count(),
        ensures
            v == self.value_at(i as int),
    {
        self.values[i]
    }

    /// Where the entry with the key stands, if there is one.
    pub fn find(&self, key: &str) -> (r: Option<usize>)
        requires
            self.wf(),
        ensures
            match r {
                Some(i) => i < self.count() && self.key_at(i as int) == key@ && self@.contains_key(key@)
                    && self@[key@] == self.value_at(i as int),
                None => !self@.contains_key(key@),
            },
    {
        let mut i: usize = 0;
        while i < self.keys.len()
            invariant
                self.wf(),
                i <= self.keys.len(),
                forall|k: int| 0 <= k < i ==> #[trigger] self.key_at(k) != key@,
            decreases self.keys.len() - i,
        {
            if str_eq(self.keys[i].as_str(), key) {
                proof {
                    self.lemma_entry(i as int);
                }
                return Some(i);
            }
            i += 1;
        }
        None
    }

    /// The value under a key, if there is one.
    pub fn get(&self, key: &str) -> (r: Option<V>)
        requires
            self.wf(),
        ensures
            match r {
                Some(v) => self@.contains_key(key@) && self@[key@] == v,
                None => !self@.contains_key(key@),
            },
    {
        match self.find(key) {
            Some(i) => Some(self.values[i]),
            None => None,
        }
    }

    /// Puts a value under a key, in place of any value the key had.
    pub fn put(&mut self, key: &str, value: V)
        requires
            old(self).wf(),
        ensures
            final(self).wf(),
            final(self)@ == old(self)@.insert(key@, value),
    {
        match self.find(key) {
            Some(i) => {
                let ghost before = *self;
                self.values[i] = value;
                proof {
                    assert(forall|k: int| 0 <= k < self.count() ==> self.key_at(k) == before.key_at(k));
                    assert forall|k: Seq<char>| self.has(k) == before.has(k) by {
                        if before.has(k) {
                            let p = before.position(k);
                            assert(self.key_at(p) == k);
                        }
                        if self.has(k) {
                            let p = self.position(k);
                            assert(before.key_at(p) == k);
                        }
                    }
                    assert forall|k: Seq<char>| self.has(k) implies #[trigger] self@[k] == before@.insert(
                        key@,
                        value,
                    )[k] by {
                        let p = self.position(k);
                        self.lemma_entry(p);
                        before.lemma_entry(p);
                        before.lemma_entry(i as int);
                    }
                    assert(self@ =~= before@.insert(key@, value));
                }
            },
            None => {
                let ghost before = *self;
                self.keys.push(key.to_owned());
                self.values.push(value);
                proof {
                    let n = before.count() as int;
                    assert(forall|k: int| 0 <= k < n ==> self.key_at(k) == before.key_at(k));
                    assert(self.key_at(n) == key@);
                    assert(self.wf()) by {
                        assert forall|i: int, j: int| 0 <= i < j < self.keys.len() implies (
                        #[trigger] self.keys@[i])@ != (#[trigger] self.keys@[j])@ by {
                            if j == n {
                                assert(before.key_at(i) != key@);
                            } else {
                                assert(before.keys@[i]@ != before.keys@[j]@);
                            }
                        }
                    }
                    assert forall|k: Seq<char>| self.has(k) == (before.has(k) || k == key@) by {
                        if before.has(k) {
                            let p = before.position(k);
                            assert(self.key_at(p) == k);
                        }
                        if k == key@ {
                            assert(self.key_at(n) == k);
                        }
                        if self.has(k) && k != key@ {
                            let p = self.position(k);
                            assert(before.key_at(p) == k);
                        }
                    }
                    assert forall|k: Seq<char>| self.has(k) implies #[trigger] self@[k] == before@.insert(
                        key@,
                        value,
                    )[k] by {
                        let p = self.position(k);
                        self.lemma_entry(p);
                        if p < n {
                            before.lemma_entry(p);
                        }
                    }
                    assert(self@ =~= before@.insert(key@, value));
                }
            },
        }
    }

    /// Takes out the entry at a position. The entries before it stay where they are.
    pub fn remove_at(&mut self, i: usize)
        requires
            old(self).wf(),
            i < old(self).count(),
        ensures
            final(self).wf(),
            final(self)@ == old(self)@.remove(old(self).key_at(i as int)),
            final(self).count() == old(self).count() - 1,
            forall|k: int|
                0 <= k < i ==> final(self).key_at(k) == old(self).key_at(k) && final(self).value_at(k)
                    == old(self).value_at(k),
            forall|k: int|
                0 <= k < final(self).count() ==> exists|j: int|
                    0 <= j < old(self).count() && #[trigger] final(self).key_at(k) == old(self).key_at(j)
                        && final(self).value_at(k) == old(self).value_at(j),
    {
        let ghost before = *self;
        let ghost gone = before.key_at(i as int);
        let ghost n = before.count() as int;
        self.keys.swap_remove(i);
        self.values.swap_remove(i);
        proof {
            assert forall|k: int| 0 <= k < n - 1 implies (if k == i {
                self.key_at(k) == before.key_at(n - 1) && self.value_at(k) == before.value_at(n - 1)
            } else {
                self.key_at(k) == before.key_at(k) && self.value_at(k) == before.value_at(k)
            }) by {}
            assert(self.wf()) by {
                assert forall|a: int, b: int| 0 <= a < b < self.keys.len() implies (
                #[trigger] self.keys@[a])@ != (#[trigger] self.keys@[b])@ by {
                    let a0 = if a == i {
                        n - 1
                    } else {
                        a
                    };
                    let b0 = if b == i {
                        n - 1
                    } else {
                        b
                    };
                    assert(self.key_at(a) == before.key_at(a0));
                    assert(self.key_at(b) == before.key_at(b0));
                    if a0 < b0 {
                        assert(before.keys@[a0]@ != before.keys@[b0]@);
                    } else {
                        assert(before.keys@[b0]@ != before.keys@[a0]@);
                    }
                }
            }
            assert forall|k: int| 0 <= k < self.count() implies exists|j: int|
                0 <= j < before.count() && #[trigger] self.key_at(k) == before.key_at(j)
                    && self.value_at(k) == before.value_at(j) by {
                let j = if k == i {
                    n - 1
                } else {
                    k
                };
                assert(self.key_at(k) == before.key_at(j) && self.value_at(k) == before.value_at(j));
            }
            assert forall|k: Seq<char>| self.has(k) == (before.has(k) && k != gone) by {
                if before.has(k) && k != gone {
                    let p = before.position(k);
                    if p == n - 1 {
                        assert(self.key_at(i as int) == k);
                    } else {
                        assert(self.key_at(p) == k);
                    }
                }
                if self.has(k) {
                    let p = self.position(k);
                    let p0 = if p == i {
                        n - 1
                    } else {
                        p
                    };
                    assert(before.key_at(p0) == k);
                    if k == gone {
                        if p0 < i {
                            assert(before.keys@[p0]@ != before.keys@[i as int]@);
                        } else {
                            assert(before.keys@[i as int]@ != before.keys@[p0]@);
                        }
                    }
                }
            }
            assert forall|k: Seq<char>| self.has(k) implies #[trigger] self@[k] == before@.remove(gone)[k] by {
                let p = self.position(k);
                self.lemma_entry(p);
                let p0 = if p == i {
                    n - 1
                } else {
                    p
                };
                before.lemma_entry(p0);
            }
            assert(self@ =~= before@.remove(gone));
        }
    }

    /// Takes out the entry under a key, if there is one.
    pub fn remove(&mut self, key: &str)
        requires
            old(self).wf(),
        ensures
            final(self).wf(),
            final(self)@ == old(self)@.remove(key@),
    {
        match self.find(key) {
            Some(i) => {
                self.remove_at(i);
            },
            None => {
                assert(self@.remove(key@) =~= self@);
            },
        }
    }
}

} // verus!
