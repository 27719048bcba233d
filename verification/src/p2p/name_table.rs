use vstd::prelude::*;

verus! {

/// A table keyed by names (file names), with at most one entry per name.
pub struct NameTable<V> {
    entries: Vec<(String, V)>,
}

/// The position of the entry for `key`, where there is one.
pub open spec fn seq_has_key<V>(entries: Seq<(String, V)>, key: Seq<char>) -> bool {
    exists|i: int| 0 <= i < entries.len() && (#[trigger] entries[i]).0@ == key
}

/// The names of a table are pairwise distinct.
pub open spec fn seq_keys_unique<V>(entries: Seq<(String, V)>) -> bool {
    forall|i: int, j: int|
        0 <= i < entries.len() && 0 <= j < entries.len() && i != j ==> (#[trigger] entries[i]).0@
            != (#[trigger] entries[j]).0@
}

/// The map from names to values that a sequence of distinct entries stands for.
pub open spec fn seq_to_map<V>(entries: Seq<(String, V)>) -> Map<Seq<char>, V> {
    Map::new(
        |k: Seq<char>| seq_has_key(entries, k),
        |k: Seq<char>|
            entries[choose|i: int| 0 <= i < entries.len() && (#[trigger] entries[i]).0@ == k].1,
    )
}

/// With distinct names, the map holds each entry's value under its name.
pub proof fn lemma_seq_to_map_at<V>(entries: Seq<(String, V)>, i: int)
    requires
        seq_keys_unique(entries),
        0 <= i < entries.len(),
    ensures
        seq_to_map(entries).contains_key(entries[i].0@),
        seq_to_map(entries)[entries[i].0@] == entries[i].1,
{
    let k = entries[i].0@;
    assert(seq_has_key(entries, k));
    let j = choose|j: int| 0 <= j < entries.len() && (#[trigger] entries[j]).0@ == k;
    assert(j == i);
}

impl<V> View for NameTable<V> {
    type V = Map<Seq<char>, V>;

    closed spec fn view(&self) -> Map<Seq<char>, V> {
        seq_to_map(self.entries@)
    }
}

impl<V> NameTable<V> {
    /// The table's internal invariant: no name occurs twice.
    pub closed spec fn wf(&self) -> bool {
        seq_keys_unique(self.entries@)
    }

    /// A table with no entries.
    pub fn new() -> (t: Self)
        ensures
            t.wf(),
            t@ == Map::<Seq<char>, V>::empty(),
    {
        let t = NameTable { entries: Vec::new() };
        assert(t@ =~= Map::<Seq<char>, V>::empty());
        t
    }

    /// Where the entry for `key` stands, if the table has one.
    fn position(&self, key: &String) -> (r: Option<usize>)
        requires
            self.wf(),
        ensures
            match r {
                Some(i) => i < self.entries@.len() && self.entries@[i as int].0@ == key@,
                None => !self@.contains_key(key@),
            },
    {
        let mut i: usize = 0;
        while i < self.entries.len()
            invariant
                i <= self.entries@.len(),
                forall|j: int| 0 <= j < i ==> (#[trigger] self.entries@[j]).0@ != key@,
            decreases self.entries@.len() - i,
        {
            if self.entries[i].0 == *key {
                return Some(i);
            }
            i = i + 1;
        }
        None
    }

    /// The value stored under `key`, if any.
    pub fn get(&self, key: &String) -> (r: Option<&V>)
        requires
            self.wf(),
        ensures
            match r {
                Some(v) => self@.contains_key(key@) && *v == self@[key@],
                None => !self@.contains_key(key@),
            },
    {
        match self.position(key) {
            Some(i) => {
                proof {
                    lemma_seq_to_map_at(self.entries@, i as int);
                }
                Some(&self.entries[i].1)
            },
            None => None,
        }
    }

    /// Takes out the entry for `key`, returning its value.
    pub fn remove(&mut self, key: &String) -> (r: Option<V>)
        requires
            old(self).wf(),
        ensures
            final(self).wf(),
            final(self)@ == old(self)@.remove(key@),
            match r {
                Some(v) => old(self)@.contains_key(key@) && v == old(self)@[key@],
                None => !old(self)@.contains_key(key@),
            },
    {
        match self.position(key) {
            Some(i) => {
                let ghost old_entries = self.entries@;
                proof {
                    lemma_seq_to_map_at(old_entries, i as int);
                }
                let entry = self.entries.remove(i);
                let ghost es = self.entries@;
                assert(es == old_entries.remove(i as int));
                assert(seq_keys_unique(es)) by {
                    assert forall|a: int, b: int|
                        0 <= a < es.len() && 0 <= b < es.len() && a != b implies (#[trigger] es[a]).0@
                        != (#[trigger] es[b]).0@ by {
                        let oa = if a < i { a } else { a + 1 };
                        let ob = if b < i { b } else { b + 1 };
                        assert(es[a] == old_entries[oa]);
                        assert(es[b] == old_entries[ob]);
                    }
                }
                assert(self@ =~= old(self)@.remove(key@)) by {
                    assert forall|k: Seq<char>| #[trigger] self@.contains_key(k) implies old(
                        self,
                    )@.remove(key@).contains_key(k) && self@[k] == old(self)@.remove(key@)[k] by {
                        let a = choose|a: int| 0 <= a < es.len() && (#[trigger] es[a]).0@ == k;
                        let oa = if a < i { a } else { a + 1 };
                        assert(es[a] == old_entries[oa]);
                        assert(oa != i);
                        lemma_seq_to_map_at(old_entries, oa);
                        lemma_seq_to_map_at(es, a);
                    }
                    assert forall|k: Seq<char>| #[trigger] old(self)@.remove(key@).contains_key(
                        k,
                    ) implies self@.contains_key(k) by {
                        let oa = choose|oa: int|
                            0 <= oa < old_entries.len() && (#[trigger] old_entries[oa]).0@ == k;
                        assert(oa != i);
                        let a = if oa < i { oa } else { oa - 1 };
                        assert(es[a] == old_entries[oa]);
                        assert(seq_has_key(es, k));
                    }
                }
                Some(entry.1)
            },
            None => {
                assert(self@ =~= old(self)@.remove(key@));
                None
            },
        }
    }

    /// Stores `value` under `key`, replacing any value stored there before.
    pub fn insert(&mut self, key: String, value: V)
        requires
            old(self).wf(),
        ensures
            final(self).wf(),
            final(self)@ == old(self)@.insert(key@, value),
    {
        let _ = self.remove(&key);
        let ghost mid = self.entries@;
        let ghost mid_map = self@;
        let ghost k = key@;
        self.entries.push((key, value));
        let ghost es = self.entries@;
        assert(es == mid.push((es.last().0, value)));
        assert(es.last().0@ == k);
        assert(!mid_map.contains_key(k));
        assert(seq_keys_unique(es)) by {
            assert forall|a: int, b: int|
                0 <= a < es.len() && 0 <= b < es.len() && a != b implies (#[trigger] es[a]).0@
                != (#[trigger] es[b]).0@ by {
                if a == es.len() - 1 {
                    assert(es[b] == mid[b]);
                    assert(seq_has_key(mid, es[b].0@));
                } else if b == es.len() - 1 {
                    assert(es[a] == mid[a]);
                    assert(seq_has_key(mid, es[a].0@));
                } else {
                    assert(es[a] == mid[a]);
                    assert(es[b] == mid[b]);
                }
            }
        }
        assert(self@ =~= old(self)@.insert(k, value)) by {
            lemma_seq_to_map_at(es, es.len() - 1);
            assert forall|q: Seq<char>| #[trigger] self@.contains_key(q) implies old(self)@.insert(
                k,
                value,
            ).contains_key(q) && self@[q] == old(self)@.insert(k, value)[q] by {
                if q != k {
                    let a = choose|a: int| 0 <= a < es.len() && (#[trigger] es[a]).0@ == q;
                    assert(a != es.len() - 1);
                    assert(es[a] == mid[a]);
                    lemma_seq_to_map_at(mid, a);
                    lemma_seq_to_map_at(es, a);
                }
            }
            assert forall|q: Seq<char>| #[trigger] old(self)@.insert(k, value).contains_key(
                q,
            ) implies self@.contains_key(q) by {
                if q != k {
                    assert(mid_map.contains_key(q));
                    let a = choose|a: int| 0 <= a < mid.len() && (#[trigger] mid[a]).0@ == q;
                    assert(es[a] == mid[a]);
                    assert(seq_has_key(es, q));
                }
            }
        }
    }
}

} // verus!
