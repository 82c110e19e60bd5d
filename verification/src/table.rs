//! A table keyed by text.

use vstd::prelude::*;
use crate::text::str_eq;

verus! {

/// A finite map from texts to values, each key at most once.
pub struct Table<V> {
    entries: Vec<(String, V)>,
}

/// Whether entry `i` has the key `k`.
spec fn has_key<V>(entries: Seq<(String, V)>, k: Seq<char>, i: int) -> bool {
    0 <= i < entries.len() && entries[i].0@ == k
}

/// No two entries have the same key.
spec fn distinct<V>(entries: Seq<(String, V)>) -> bool {
    forall|i: int, j: int|
        0 <= i < j < entries.len() ==> #[trigger] entries[i].0@ != #[trigger] entries[j].0@
}

/// The map that a list of entries holds.
spec fn map_of<V: View>(entries: Seq<(String, V)>) -> Map<Seq<char>, V::V> {
    Map::new(
        |k: Seq<char>| exists|i: int| has_key(entries, k, i),
        |k: Seq<char>| entries[choose|i: int| has_key(entries, k, i)].1@,
    )
}

impl<V: View> View for Table<V> {
    type V = Map<Seq<char>, V::V>;

    closed spec fn view(&self) -> Map<Seq<char>, V::V> {
        map_of(self.entries@)
    }
}

/// An entry is found under its key.
proof fn lemma_entry<V: View>(entries: Seq<(String, V)>, i: int)
    requires
        distinct(entries),
        0 <= i < entries.len(),
    ensures
        map_of(entries).contains_key(entries[i].0@),
        map_of(entries)[entries[i].0@] == entries[i].1@,
{
    assert(has_key(entries, entries[i].0@, i));
}

/// Pushing an entry with a new key inserts it.
proof fn lemma_push<V: View>(entries: Seq<(String, V)>, e: (String, V))
    requires
        distinct(entries),
        !map_of(entries).contains_key(e.0@),
    ensures
        distinct(entries.push(e)),
        map_of(entries.push(e)) == map_of(entries).insert(e.0@, e.1@),
{
    let after = entries.push(e);
    assert forall|i: int| 0 <= i < entries.len() implies entries[i].0@ != e.0@ by {
        if entries[i].0@ == e.0@ {
            assert(has_key(entries, e.0@, i));
        }
    }
    assert forall|i: int, j: int| 0 <= i < j < after.len() implies #[trigger] after[i].0@
        != #[trigger] after[j].0@ by {
        assert(after[i] == entries[i]);
        if j < entries.len() {
            assert(after[j] == entries[j]);
        }
    }
    let m = map_of(entries);
    let n = map_of(after);
    lemma_entry(after, entries.len() as int);
    assert forall|k: Seq<char>| n.contains_key(k) == m.insert(e.0@, e.1@).contains_key(k) by {
        if n.contains_key(k) {
            let i = choose|i: int| has_key(after, k, i);
            if i < entries.len() {
                assert(has_key(entries, k, i));
            }
        }
        if m.contains_key(k) {
            let i = choose|i: int| has_key(entries, k, i);
            assert(has_key(after, k, i));
        }
    }
    assert forall|k: Seq<char>| n.contains_key(k) implies n[k] == m.insert(e.0@, e.1@)[k] by {
        if k != e.0@ {
            let i = choose|i: int| has_key(entries, k, i);
            lemma_entry(entries, i);
            assert(after[i] == entries[i]);
            lemma_entry(after, i);
        }
    }
    assert(n =~= m.insert(e.0@, e.1@));
}

/// Removing an entry removes its key.
proof fn lemma_remove<V: View>(entries: Seq<(String, V)>, at: int)
    requires
        distinct(entries),
        0 <= at < entries.len(),
    ensures
        distinct(entries.remove(at)),
        map_of(entries.remove(at)) == map_of(entries).remove(entries[at].0@),
{
    let after = entries.remove(at);
    let key = entries[at].0@;
    let m = map_of(entries);
    let n = map_of(after);
    assert forall|i: int| 0 <= i < after.len() implies #[trigger] after[i] == entries[if i < at {
        i
    } else {
        i + 1
    }] by {}
    assert(distinct(after));
    assert forall|k: Seq<char>| n.contains_key(k) == m.remove(key).contains_key(k) by {
        if n.contains_key(k) {
            let i = choose|i: int| has_key(after, k, i);
            assert(has_key(
                entries,
                k,
                if i < at {
                    i
                } else {
                    i + 1
                },
            ));
        }
        if m.contains_key(k) && k != key {
            let i = choose|i: int| has_key(entries, k, i);
            assert(has_key(
                after,
                k,
                if i < at {
                    i
                } else {
                    i - 1
                },
            ));
        }
    }
    assert forall|k: Seq<char>| n.contains_key(k) implies n[k] == m.remove(key)[k] by {
        let i = choose|i: int| has_key(after, k, i);
        lemma_entry(after, i);
        lemma_entry(
            entries,
            if i < at {
                i
            } else {
                i + 1
            },
        );
    }
    assert(n =~= m.remove(key));
}

impl<V: View> Table<V> {
    /// Each key occurs once.
    pub closed spec fn wf(&self) -> bool {
        distinct(self.entries@)
    }

    pub fn new() -> (r: Self)
        ensures
            r.wf(),
            r@ == Map::<Seq<char>, V::V>::empty(),
    {
        let r = Table { entries: Vec::new() };
        assert(r@ =~= Map::<Seq<char>, V::V>::empty());
        r
    }

    /// The position of the entry with the key `key`.
    fn find(&self, key: &str) -> (r: Option<usize>)
        requires
            self.wf(),
        ensures
            match r {
                Some(i) => i < self.entries@.len() && self.entries@[i as int].0@ == key@,
                None => !self@.contains_key(key@),
            },
    {
        let mut i: usize = 0;
        while i < self.entries.len()
            invariant
                i <= self.entries@.len(),
                forall|j: int| 0 <= j < i ==> self.entries@[j].0@ != key@,
            decreases self.entries.len() - i,
        {
            if str_eq(self.entries[i].0.as_str(), key) {
                return Some(i);
            }
            i += 1;
        }
        None
    }

    pub fn contains_key(&self, key: &str) -> (r: bool)
        requires
            self.wf(),
        ensures
            r == self@.contains_key(key@),
    {
        match self.find(key) {
            Some(i) => {
                proof {
                    lemma_entry(self.entries@, i as int);
                }
                true
            },
            None => false,
        }
    }

    pub fn get(&self, key: &str) -> (r: Option<&V>)
        requires
            self.wf(),
        ensures
            match r {
                Some(v) => self@.contains_key(key@) && self@[key@] == v@,
                None => !self@.contains_key(key@),
            },
    {
        match self.find(key) {
            Some(i) => {
                proof {
                    lemma_entry(self.entries@, i as int);
                }
                Some(&self.entries[i].1)
            },
            None => None,
        }
    }

    /// Takes the value of `key` out of the table.
    pub fn remove(&mut self, key: &str) -> (r: Option<V>)
        requires
            old(self).wf(),
        ensures
            final(self).wf(),
            final(self)@ == old(self)@.remove(key@),
            match r {
                Some(v) => old(self)@.contains_key(key@) && old(self)@[key@] == v@,
                None => !old(self)@.contains_key(key@),
            },
    {
        match self.find(key) {
            Some(i) => {
                proof {
                    lemma_entry(self.entries@, i as int);
                    lemma_remove(self.entries@, i as int);
                }
                let e = self.entries.remove(i);
                Some(e.1)
            },
            None => {
                assert(self@.remove(key@) =~= self@);
                None
            },
        }
    }

    /// Puts `value` under `key`, in place of what may have been there.
    pub fn insert(&mut self, key: String, value: V)
        requires
            old(self).wf(),
        ensures
            final(self).wf(),
            final(self)@ == old(self)@.insert(key@, value@),
    {
        let ghost before = self@;
        let _ = self.remove(key.as_str());
        proof {
            lemma_push(self.entries@, (key, value));
            assert(before.remove(key@).insert(key@, value@) =~= before.insert(key@, value@));
        }
        self.entries.push((key, value));
    }

    /// How many entries there are.
    pub fn len(&self) -> (r: usize)
        ensures
            r == self.size(),
    {
        self.entries.len()
    }

    /// How many entries there are.
    pub closed spec fn size(&self) -> nat {
        self.entries@.len()
    }

    /// The key of entry `i`, in some order that stays while the table does.
    pub closed spec fn key(&self, i: int) -> Seq<char> {
        self.entries@[i].0@
    }

    /// The value of entry `i`.
    pub fn value_at(&self, i: usize) -> (r: &V)
        requires
            self.wf(),
            i < self.size(),
        ensures
            self@.contains_key(self.key(i as int)),
            self@[self.key(i as int)] == r@,
    {
        proof {
            lemma_entry(self.entries@, i as int);
        }
        &self.entries[i].1
    }

    /// A copy of the key of entry `i`.
    pub fn key_at(&self, i: usize) -> (r: String)
        requires
            i < self.size(),
        ensures
            r@ == self.key(i as int),
    {
        self.entries[i].0.clone()
    }

    /// The key of an entry is one of the map.
    pub proof fn lemma_key(&self, i: int)
        requires
            self.wf(),
            0 <= i < self.size(),
        ensures
            self@.contains_key(self.key(i)),
    {
        lemma_entry(self.entries@, i);
    }

    /// The keys of the entries are those of the map, each once.
    pub proof fn lemma_keys(&self)
        requires
            self.wf(),
        ensures
            forall|k: Seq<char>|
                self@.contains_key(k) ==> exists|i: int|
                    0 <= i < self.size() && #[trigger] self.key(i) == k,
            forall|i: int, j: int|
                0 <= i < j < self.size() ==> #[trigger] self.key(i) != #[trigger] self.key(j),
    {
        assert forall|k: Seq<char>| self@.contains_key(k) implies exists|i: int|
            0 <= i < self.size() && #[trigger] self.key(i) == k by {
            let i = choose|i: int| has_key(self.entries@, k, i);
            assert(self.key(i) == k);
        }
    }

    /// Drops the entries whose value does not satisfy `keep`.
    pub(crate) fn retain<F: Fn(&V) -> bool>(&mut self, keep: F, pred: Ghost<spec_fn(V::V) -> bool>)
        requires
            old(self).wf(),
            forall|v: &V| #[trigger] keep.requires((v,)),
            forall|v: &V, b: bool| #[trigger] keep.ensures((v,), b) ==> b == pred@(v@),
        ensures
            final(self).wf(),
            final(self)@ == kept(old(self)@, pred@),
    {
        let ghost before = self@;
        let mut i: usize = 0;
        while i < self.entries.len()
            invariant
                self.wf(),
                i <= self.entries@.len(),
                forall|v: &V| #[trigger] keep.requires((v,)),
                forall|v: &V, b: bool| #[trigger] keep.ensures((v,), b) ==> b == pred@(v@),
                forall|j: int| 0 <= j < i ==> pred@((#[trigger] self.entries@[j]).1@),
                kept(before, pred@) == kept(self@, pred@),
            decreases self.entries@.len() - i,
        {
            proof {
                lemma_entry(self.entries@, i as int);
            }
            if keep(&self.entries[i].1) {
                i += 1;
            } else {
                let ghost was = self@;
                let ghost list = self.entries@;
                proof {
                    lemma_remove(self.entries@, i as int);
                }
                let _ = self.entries.remove(i);
                assert(kept(was, pred@) =~= kept(self@, pred@));
                assert forall|j: int| 0 <= j < i implies pred@(
                    (#[trigger] self.entries@[j]).1@,
                ) by {
                    assert(self.entries@[j] == list[j]);
                }
            }
        }
        proof {
            assert forall|k: Seq<char>| self@.contains_key(k) implies pred@(self@[k]) by {
                let j = choose|j: int| has_key(self.entries@, k, j);
                lemma_entry(self.entries@, j);
            }
            assert(kept(self@, pred@) =~= self@);
        }
    }
}

/// The part of a map whose values satisfy `pred`.
pub open spec fn kept<T>(m: Map<Seq<char>, T>, pred: spec_fn(T) -> bool) -> Map<Seq<char>, T> {
    Map::new(|k: Seq<char>| m.contains_key(k) && pred(m[k]), |k: Seq<char>| m[k])
}

} // verus!
