//! A map from string keys to values, kept in the byte order of its keys so
//! that it can be listed page by page after an exclusive cursor.
use vstd::prelude::*;
use crate::order::{key_lt, lemma_key_lt_irreflexive, lemma_key_lt_total, lemma_key_lt_transitive, str_lt};

verus! {

pub struct Entry<V> {
    pub key: String,
    pub value: V,
}

/// The keys of a sequence of entries.
pub open spec fn keys_of<V>(s: Seq<Entry<V>>) -> Seq<Seq<char>> {
    s.map_values(|e: Entry<V>| e.key@)
}

pub proof fn lemma_keys_of<V>(s: Seq<Entry<V>>)
    ensures
        keys_of(s).len() == s.len(),
        forall|i: int| 0 <= i < s.len() ==> #[trigger] keys_of(s)[i] == s[i].key@,
{
}

/// Keys in strictly ascending order.
pub open spec fn keys_ascending(s: Seq<Seq<char>>) -> bool {
    forall|i: int, j: int| 0 <= i < j < s.len() ==> key_lt(s[i], s[j])
}

/// How many keys of `s` do not come after the cursor `a`: for ascending
/// keys, the index of the first key after `a`.
pub open spec fn count_not_after(s: Seq<Seq<char>>, a: Seq<char>) -> nat
    decreases s.len(),
{
    if s.len() == 0 {
        0
    } else {
        count_not_after(s.drop_last(), a) + if key_lt(a, s.last()) {
            0nat
        } else {
            1nat
        }
    }
}

pub proof fn lemma_count_not_after(s: Seq<Seq<char>>, a: Seq<char>, k: int)
    requires
        0 <= k <= s.len(),
        forall|i: int| 0 <= i < k ==> !key_lt(a, s[i]),
        forall|i: int| k <= i < s.len() ==> key_lt(a, s[i]),
    ensures
        count_not_after(s, a) == k,
    decreases s.len(),
{
    if s.len() > 0 {
        if k == s.len() {
            lemma_count_not_after(s.drop_last(), a, k - 1);
        } else {
            lemma_count_not_after(s.drop_last(), a, k);
        }
    }
}

pub struct Registry<V> {
    entries: Vec<Entry<V>>,
    contents: Ghost<Map<Seq<char>, V>>,
}

impl<V> Registry<V> {
    /// What the registry maps each key to.
    pub closed spec fn map(&self) -> Map<Seq<char>, V> {
        self.contents@
    }

    /// The keys, ascending.
    pub closed spec fn keys(&self) -> Seq<Seq<char>> {
        keys_of(self.entries@)
    }

    pub closed spec fn wf(&self) -> bool {
        &&& keys_ascending(keys_of(self.entries@))
        &&& forall|i: int|
            0 <= i < self.entries@.len() ==> #[trigger] self.contents@.contains_key(self.entries@[i].key@)
                && self.contents@[self.entries@[i].key@] == self.entries@[i].value
        &&& forall|k: Seq<char>|
            #[trigger] self.contents@.contains_key(k) ==> exists|i: int|
                0 <= i < self.entries@.len() && self.entries@[i].key@ == k
    }

    /// The keys are ascending, each held once, and they are exactly the
    /// keys of the map.
    pub proof fn lemma_keys(&self)
        requires
            self.wf(),
        ensures
            keys_ascending(self.keys()),
            self.keys().no_duplicates(),
            forall|k: Seq<char>| self.map().contains_key(k) <==> self.keys().contains(k),
            self.keys().len() == self.map().dom().len(),
    {
        let ks = self.keys();
        lemma_keys_of(self.entries@);
        assert forall|k: Seq<char>| self.map().contains_key(k) <==> ks.contains(k) by {
            if self.map().contains_key(k) {
                let i = choose|i: int| 0 <= i < self.entries@.len() && self.entries@[i].key@ == k;
                assert(ks[i] == k);
            }
            if ks.contains(k) {
                let i = choose|i: int| 0 <= i < ks.len() && ks[i] == k;
                assert(self.contents@.contains_key(self.entries@[i].key@));
            }
        }
        assert forall|i: int, j: int| 0 <= i < ks.len() && 0 <= j < ks.len() && i != j implies ks[i] != ks[j] by {
            if i < j {
                lemma_key_lt_irreflexive(ks[i]);
            } else {
                lemma_key_lt_irreflexive(ks[j]);
            }
        }
        ks.unique_seq_to_set();
        assert(ks.to_set() =~= self.map().dom());
    }

    pub fn new() -> (r: Registry<V>)
        ensures
            r.wf(),
            r.map() == Map::<Seq<char>, V>::empty(),
    {
        Registry { entries: Vec::new(), contents: Ghost(Map::empty()) }
    }

    pub fn len(&self) -> (r: usize)
        requires
            self.wf(),
        ensures
            r == self.keys().len(),
    {
        self.entries.len()
    }

    pub fn key_at(&self, i: usize) -> (r: &String)
        requires
            i < self.keys().len(),
        ensures
            r@ == self.keys()[i as int],
    {
        &self.entries[i].key
    }

    pub fn value_at(&self, i: usize) -> (r: &V)
        requires
            self.wf(),
            i < self.keys().len(),
        ensures
            *r == self.map()[self.keys()[i as int]],
    {
        proof {
            lemma_keys_of(self.entries@);
            assert(self.contents@.contains_key(self.entries@[i as int].key@));
        }
        &self.entries[i].value
    }

    fn find(&self, key: &String) -> (r: Option<usize>)
        requires
            self.wf(),
        ensures
            match r {
                Some(i) => i < self.entries@.len() && self.entries@[i as int].key@ == key@,
                None => !self.map().contains_key(key@),
            },
    {
        let mut i: usize = 0;
        while i < self.entries.len()
            invariant
                0 <= i <= self.entries@.len(),
                forall|j: int| 0 <= j < i ==> self.entries@[j].key@ != key@,
            decreases self.entries@.len() - i,
        {
            if self.entries[i].key == *key {
                return Some(i);
            }
            i = i + 1;
        }
        None
    }

    pub fn get(&self, key: &String) -> (r: Option<&V>)
        requires
            self.wf(),
        ensures
            r is Some == self.map().contains_key(key@),
            r is Some ==> *r->Some_0 == self.map()[key@],
    {
        match self.find(key) {
            Some(i) => {
                proof {
                    assert(self.contents@.contains_key(self.entries@[i as int].key@));
                }
                Some(&self.entries[i].value)
            },
            None => None,
        }
    }

    pub fn contains_key(&self, key: &String) -> (r: bool)
        requires
            self.wf(),
        ensures
            r == self.map().contains_key(key@),
    {
        self.find(key).is_some()
    }

    /// Compare-and-insert: maps `key` to `value` unless `key` is already
    /// there, and tells whether it did.
    pub fn insert_new(&mut self, key: String, value: V) -> (r: bool)
        requires
            old(self).wf(),
        ensures
            final(self).wf(),
            r == !old(self).map().contains_key(key@),
            r ==> final(self).map() == old(self).map().insert(key@, value),
            !r ==> final(self).map() == old(self).map(),
    {
        let mut i: usize = 0;
        while i < self.entries.len() && str_lt(self.entries[i].key.as_str(), key.as_str())
            invariant
                self.wf(),
                0 <= i <= self.entries@.len(),
                forall|j: int| 0 <= j < i ==> key_lt(self.entries@[j].key@, key@),
            decreases self.entries@.len() - i,
        {
            i = i + 1;
        }
        if i < self.entries.len() && self.entries[i].key == key {
            proof {
                assert(self.contents@.contains_key(self.entries@[i as int].key@));
            }
            return false;
        }
        let ghost before = self.entries@;
        proof {
            lemma_keys_of(before);
            if i < before.len() {
                lemma_key_lt_total(before[i as int].key@, key@);
                assert forall|j: int| i <= j < before.len() implies key_lt(key@, before[j].key@) by {
                    if j > i {
                        assert(key_lt(keys_of(before)[i as int], keys_of(before)[j]));
                        lemma_key_lt_transitive(key@, before[i as int].key@, before[j].key@);
                    }
                }
            }
            assert forall|j: int| 0 <= j < before.len() implies before[j].key@ != key@ by {
                if j < i {
                    lemma_key_lt_irreflexive(key@);
                } else {
                    lemma_key_lt_irreflexive(key@);
                }
            }
        }
        let ghost k = key@;
        let ghost v = value;
        self.entries.insert(i, Entry { key, value });
        self.contents = Ghost(self.contents@.insert(k, v));
        proof {
            let after = self.entries@;
            lemma_keys_of(after);
            assert(after =~= before.insert(i as int, Entry { key: after[i as int].key, value: v }));
            assert forall|a: int, b: int| 0 <= a < b < after.len() implies key_lt(
                keys_of(after)[a],
                keys_of(after)[b],
            ) by {
                let a2 = if a < i { a } else { a - 1 };
                let b2 = if b < i { b } else { b - 1 };
                if a != i && b != i {
                    assert(key_lt(keys_of(before)[a2], keys_of(before)[b2]));
                }
                if a < i && b > i {
                    lemma_key_lt_transitive(after[a].key@, k, after[b].key@);
                }
            }
            assert forall|j: int| 0 <= j < after.len() implies #[trigger] self.contents@.contains_key(
                after[j].key@,
            ) && self.contents@[after[j].key@] == after[j].value by {
                if j < i {
                    assert(after[j] == before[j]);
                } else if j > i {
                    assert(after[j] == before[j - 1]);
                }
            }
            assert forall|q: Seq<char>| #[trigger] self.contents@.contains_key(q) implies exists|j: int|
                0 <= j < after.len() && after[j].key@ == q by {
                if q == k {
                    assert(after[i as int].key@ == q);
                } else {
                    let j = choose|j: int| 0 <= j < before.len() && before[j].key@ == q;
                    if j < i {
                        assert(after[j].key@ == q);
                    } else {
                        assert(after[j + 1].key@ == q);
                    }
                }
            }
        }
        true
    }

    /// Removes `key` and what it maps to, if it is there.
    pub fn remove(&mut self, key: &String)
        requires
            old(self).wf(),
        ensures
            final(self).wf(),
            final(self).map() == old(self).map().remove(key@),
    {
        match self.find(key) {
            None => {
                assert(self.map() =~= self.map().remove(key@));
            },
            Some(i) => {
                let ghost before = self.entries@;
                let ghost old_contents = self.contents@;
                self.entries.remove(i);
                self.contents = Ghost(self.contents@.remove(key@));
                proof {
                    let after = self.entries@;
                    assert(after =~= before.remove(i as int));
                    assert forall|a: int, b: int| 0 <= a < b < after.len() implies key_lt(
                        keys_of(after)[a],
                        keys_of(after)[b],
                    ) by {
                        let a2 = if a < i { a } else { a + 1 };
                        let b2 = if b < i { b } else { b + 1 };
                        assert(keys_of(before)[a2] == keys_of(after)[a]);
                        assert(keys_of(before)[b2] == keys_of(after)[b]);
                    }
                    assert forall|j: int| 0 <= j < after.len() implies #[trigger] self.contents@.contains_key(
                        after[j].key@,
                    ) && self.contents@[after[j].key@] == after[j].value by {
                        let j2 = if j < i { j } else { j + 1 };
                        assert(after[j] == before[j2]);
                        assert(old_contents.contains_key(before[j2].key@));
                        lemma_key_lt_irreflexive(key@);
                        assert(before[j2].key@ != key@) by {
                            if j2 < i {
                                assert(key_lt(keys_of(before)[j2], keys_of(before)[i as int]));
                            } else {
                                assert(key_lt(keys_of(before)[i as int], keys_of(before)[j2]));
                            }
                        }
                    }
                    assert forall|q: Seq<char>| #[trigger] self.contents@.contains_key(q) implies exists|j: int|
                        0 <= j < after.len() && after[j].key@ == q by {
                        let j = choose|j: int| 0 <= j < before.len() && before[j].key@ == q;
                        if j < i {
                            assert(after[j].key@ == q);
                        } else {
                            assert(j != i);
                            assert(after[j - 1].key@ == q);
                        }
                    }
                }
            },
        }
    }

    /// The index of the first key after the exclusive cursor `start_after`
    /// (the start of the listing when there is no cursor).
    pub fn first_after(&self, start_after: Option<&str>) -> (r: usize)
        requires
            self.wf(),
        ensures
            r == match start_after {
                Some(a) => count_not_after(self.keys(), a@),
                None => 0,
            },
            r <= self.keys().len(),
    {
        match start_after {
            None => 0,
            Some(a) => {
                let mut k: usize = 0;
                while k < self.entries.len() && !str_lt(a, self.entries[k].key.as_str())
                    invariant
                        self.wf(),
                        0 <= k <= self.entries@.len(),
                        forall|j: int| 0 <= j < k ==> !key_lt(a@, keys_of(self.entries@)[j]),
                    decreases self.entries@.len() - k,
                {
                    k = k + 1;
                }
                proof {
                    let ks = keys_of(self.entries@);
                    assert forall|j: int| k <= j < ks.len() implies key_lt(a@, ks[j]) by {
                        if j > k {
                            lemma_key_lt_transitive(a@, ks[k as int], ks[j]);
                        }
                    }
                    lemma_count_not_after(ks, a@, k as int);
                }
                k
            },
        }
    }
}

} // verus!
