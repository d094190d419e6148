//! Ordered keys: the byte order of strings and sets of ids kept in
//! ascending order, with the exclusive-cursor paging that every listing
//! of the bridge uses.
use vstd::prelude::*;
use vstd::utf8::*;

verus! {

broadcast use vstd::utf8::group_utf8_lib;

/// Lexicographic order on byte strings (a proper prefix comes first).
pub open spec fn bytes_lt(a: Seq<u8>, b: Seq<u8>) -> bool
    decreases a.len(),
{
    if a.len() == 0 {
        b.len() > 0
    } else if b.len() == 0 {
        false
    } else if a[0] != b[0] {
        a[0] < b[0]
    } else {
        bytes_lt(a.drop_first(), b.drop_first())
    }
}

/// Order of string keys: the order of their UTF-8 encodings.
pub open spec fn key_lt(a: Seq<char>, b: Seq<char>) -> bool {
    bytes_lt(encode_utf8(a), encode_utf8(b))
}

pub proof fn lemma_bytes_lt_irreflexive(a: Seq<u8>)
    ensures
        !bytes_lt(a, a),
    decreases a.len(),
{
    if a.len() > 0 {
        lemma_bytes_lt_irreflexive(a.drop_first());
    }
}

pub proof fn lemma_bytes_lt_transitive(a: Seq<u8>, b: Seq<u8>, c: Seq<u8>)
    requires
        bytes_lt(a, b),
        bytes_lt(b, c),
    ensures
        bytes_lt(a, c),
    decreases a.len(),
{
    if a.len() > 0 && b.len() > 0 && c.len() > 0 && a[0] == b[0] && b[0] == c[0] {
        lemma_bytes_lt_transitive(a.drop_first(), b.drop_first(), c.drop_first());
    }
}

pub proof fn lemma_bytes_lt_total(a: Seq<u8>, b: Seq<u8>)
    requires
        a != b,
    ensures
        bytes_lt(a, b) || bytes_lt(b, a),
    decreases a.len(),
{
    if a.len() > 0 && b.len() > 0 && a[0] == b[0] {
        if a.drop_first() == b.drop_first() {
            assert(a =~= seq![a[0]] + a.drop_first());
            assert(b =~= seq![b[0]] + b.drop_first());
        }
        lemma_bytes_lt_total(a.drop_first(), b.drop_first());
    } else if a.len() == 0 && b.len() == 0 {
        assert(a =~= b);
    }
}

pub proof fn lemma_key_lt_irreflexive(a: Seq<char>)
    ensures
        !key_lt(a, a),
{
    lemma_bytes_lt_irreflexive(encode_utf8(a));
}

pub proof fn lemma_key_lt_transitive(a: Seq<char>, b: Seq<char>, c: Seq<char>)
    requires
        key_lt(a, b),
        key_lt(b, c),
    ensures
        key_lt(a, c),
{
    lemma_bytes_lt_transitive(encode_utf8(a), encode_utf8(b), encode_utf8(c));
}

pub proof fn lemma_key_lt_total(a: Seq<char>, b: Seq<char>)
    requires
        a != b,
    ensures
        key_lt(a, b) || key_lt(b, a),
{
    if encode_utf8(a) == encode_utf8(b) {
        encode_utf8_decode_utf8(a);
        encode_utf8_decode_utf8(b);
    }
    lemma_bytes_lt_total(encode_utf8(a), encode_utf8(b));
}

proof fn lemma_bytes_lt_skip(a: Seq<u8>, b: Seq<u8>, i: int)
    requires
        0 <= i < a.len(),
        i < b.len(),
        a[i] == b[i],
    ensures
        bytes_lt(a.skip(i), b.skip(i)) == bytes_lt(a.skip(i + 1), b.skip(i + 1)),
{
    assert(a.skip(i).drop_first() =~= a.skip(i + 1));
    assert(b.skip(i).drop_first() =~= b.skip(i + 1));
}

/// Compares two strings in the byte order of their encodings.
pub fn str_lt(a: &str, b: &str) -> (r: bool)
    ensures
        r == key_lt(a@, b@),
{
    let x = a.as_bytes();
    let y = b.as_bytes();
    let mut i: usize = 0;
    proof {
        assert(x@.skip(0) =~= x@);
        assert(y@.skip(0) =~= y@);
    }
    while i < x.len() && i < y.len()
        invariant
            0 <= i <= x@.len(),
            i <= y@.len(),
            x@ == encode_utf8(a@),
            y@ == encode_utf8(b@),
            bytes_lt(x@, y@) == bytes_lt(x@.skip(i as int), y@.skip(i as int)),
        decreases x@.len() - i,
    {
        if x[i] != y[i] {
            return x[i] < y[i];
        }
        proof {
            lemma_bytes_lt_skip(x@, y@, i as int);
        }
        i = i + 1;
    }
    i < y.len()
}

/// A sequence of ids in strictly ascending order.
pub open spec fn ascending(s: Seq<u64>) -> bool {
    forall|i: int, j: int| 0 <= i < j < s.len() ==> s[i] < s[j]
}

/// How many ids of `s` are at most `a`: for an ascending `s`, the index of
/// the first id after the cursor `a`.
pub open spec fn count_at_most(s: Seq<u64>, a: u64) -> nat
    decreases s.len(),
{
    if s.len() == 0 {
        0
    } else {
        count_at_most(s.drop_last(), a) + if s.last() <= a {
            1nat
        } else {
            0nat
        }
    }
}

/// The page of at most `limit` ids of an ascending `s` that come after the
/// exclusive cursor `a`.
pub open spec fn page_after(s: Seq<u64>, a: u64, limit: nat) -> Seq<u64> {
    let k = count_at_most(s, a) as int;
    s.subrange(k, if k + limit < s.len() { k + limit } else { s.len() as int })
}

pub proof fn lemma_count_at_most_bound(s: Seq<u64>, a: u64)
    ensures
        count_at_most(s, a) <= s.len(),
    decreases s.len(),
{
    if s.len() > 0 {
        lemma_count_at_most_bound(s.drop_last(), a);
    }
}

pub proof fn lemma_count_at_most(s: Seq<u64>, a: u64, k: int)
    requires
        0 <= k <= s.len(),
        forall|i: int| 0 <= i < k ==> s[i] <= a,
        forall|i: int| k <= i < s.len() ==> s[i] > a,
    ensures
        count_at_most(s, a) == k,
    decreases s.len(),
{
    if s.len() > 0 {
        if k == s.len() {
            lemma_count_at_most(s.drop_last(), a, k - 1);
        } else {
            lemma_count_at_most(s.drop_last(), a, k);
        }
    }
}

/// A set of ids kept in ascending order.
pub struct IdSet {
    ids: Vec<u64>,
}

impl View for IdSet {
    type V = Seq<u64>;

    closed spec fn view(&self) -> Seq<u64> {
        self.ids@
    }
}

impl IdSet {
    pub closed spec fn wf(&self) -> bool {
        ascending(self.ids@)
    }

    /// The ids are in strictly ascending order, so each is held once.
    pub proof fn lemma_ascending(&self)
        requires
            self.wf(),
        ensures
            ascending(self@),
            self@.no_duplicates(),
    {
    }

    pub fn new() -> (r: IdSet)
        ensures
            r.wf(),
            r@ == Seq::<u64>::empty(),
    {
        IdSet { ids: Vec::new() }
    }

    pub fn len(&self) -> (r: usize)
        ensures
            r == self@.len(),
    {
        self.ids.len()
    }

    pub fn contains(&self, id: u64) -> (r: bool)
        ensures
            r == self@.contains(id),
    {
        let mut i: usize = 0;
        while i < self.ids.len()
            invariant
                0 <= i <= self.ids@.len(),
                forall|j: int| 0 <= j < i ==> self.ids@[j] != id,
            decreases self.ids@.len() - i,
        {
            if self.ids[i] == id {
                return true;
            }
            i = i + 1;
        }
        false
    }

    /// Compare-and-insert: adds `id` unless it is already there, and tells
    /// whether it was added.
    pub fn insert_new(&mut self, id: u64) -> (r: bool)
        requires
            old(self).wf(),
        ensures
            final(self).wf(),
            r == !old(self)@.contains(id),
            final(self)@.to_set() == old(self)@.to_set().insert(id),
            r ==> final(self)@.len() == old(self)@.len() + 1,
            !r ==> final(self)@ == old(self)@,
            (forall|j: int| 0 <= j < old(self)@.len() ==> old(self)@[j] < id) ==> final(self)@ == old(self)@.push(id),
    {
        let mut i: usize = 0;
        while i < self.ids.len() && self.ids[i] < id
            invariant
                self.wf(),
                0 <= i <= self.ids@.len(),
                forall|j: int| 0 <= j < i ==> self.ids@[j] < id,
            decreases self.ids@.len() - i,
        {
            i = i + 1;
        }
        if i < self.ids.len() && self.ids[i] == id {
            assert(self@.to_set() =~= self@.to_set().insert(id)) by {
                assert(self@.contains(id));
            }
            return false;
        }
        let ghost before = self.ids@;
        proof {
            if forall|j: int| 0 <= j < before.len() ==> before[j] < id {
                if i < before.len() {
                    assert(before[i as int] < id);
                }
                assert(i == before.len());
                assert(before.insert(i as int, id) =~= before.push(id));
            }
            assert forall|j: int| i <= j < before.len() implies before[j] > id by {
                assert(before[i as int] > id);
            }
        }
        self.ids.insert(i, id);
        proof {
            let after = self.ids@;
            assert(after =~= before.insert(i as int, id));
            assert forall|a: int, b: int| 0 <= a < b < after.len() implies after[a] < after[b] by {
            }
            assert(after.to_set() =~= before.to_set().insert(id)) by {
                assert forall|x: u64| after.to_set().contains(x) <==> before.to_set().insert(id).contains(x) by {
                    if x != id && after.contains(x) {
                        let k = choose|k: int| 0 <= k < after.len() && after[k] == x;
                        if k < i {
                            assert(before[k] == x);
                        } else {
                            assert(before[k - 1] == x);
                        }
                    }
                    if before.contains(x) {
                        let k = choose|k: int| 0 <= k < before.len() && before[k] == x;
                        if k < i {
                            assert(after[k] == x);
                        } else {
                            assert(after[k + 1] == x);
                        }
                    }
                    if x == id {
                        assert(after[i as int] == id);
                    }
                }
            }
        }
        true
    }

    /// Removes `id` if it is there.
    pub fn remove(&mut self, id: u64)
        requires
            old(self).wf(),
        ensures
            final(self).wf(),
            final(self)@.to_set() == old(self)@.to_set().remove(id),
            old(self)@.contains(id) ==> final(self)@.len() == old(self)@.len() - 1,
            !old(self)@.contains(id) ==> final(self)@ == old(self)@,
    {
        let mut i: usize = 0;
        while i < self.ids.len() && self.ids[i] != id
            invariant
                0 <= i <= self.ids@.len(),
                forall|j: int| 0 <= j < i ==> self.ids@[j] != id,
            decreases self.ids@.len() - i,
        {
            i = i + 1;
        }
        if i == self.ids.len() {
            assert(self@.to_set() =~= self@.to_set().remove(id));
            return;
        }
        let ghost before = self.ids@;
        self.ids.remove(i);
        proof {
            let after = self.ids@;
            assert(after =~= before.remove(i as int));
            assert forall|a: int, b: int| 0 <= a < b < after.len() implies after[a] < after[b] by {
                if a >= i {
                    assert(after[a] == before[a + 1]);
                }
                if b >= i {
                    assert(after[b] == before[b + 1]);
                }
            }
            assert(after.to_set() =~= before.to_set().remove(id)) by {
                assert forall|x: u64| after.to_set().contains(x) <==> before.to_set().remove(id).contains(x) by {
                    if after.contains(x) {
                        let k = choose|k: int| 0 <= k < after.len() && after[k] == x;
                        if k < i {
                            assert(before[k] == x);
                            assert(x != id);
                        } else {
                            assert(before[k + 1] == x);
                            assert(before[i as int] < before[k + 1]);
                        }
                    }
                    if before.contains(x) && x != id {
                        let k = choose|k: int| 0 <= k < before.len() && before[k] == x;
                        if k < i {
                            assert(after[k] == x);
                        } else {
                            assert(k != i);
                            assert(after[k - 1] == x);
                        }
                    }
                }
            }
        }
    }

    /// The ids after the exclusive cursor `start_after`, ascending, at most
    /// `limit` of them.
    pub fn page(&self, start_after: u64, limit: usize) -> (r: Vec<u64>)
        requires
            self.wf(),
        ensures
            r@ == page_after(self@, start_after, limit as nat),
    {
        let mut k: usize = 0;
        while k < self.ids.len() && self.ids[k] <= start_after
            invariant
                self.wf(),
                0 <= k <= self.ids@.len(),
                forall|j: int| 0 <= j < k ==> self.ids@[j] <= start_after,
            decreases self.ids@.len() - k,
        {
            k = k + 1;
        }
        proof {
            assert forall|j: int| k <= j < self.ids@.len() implies self.ids@[j] > start_after by {
                assert(self.ids@[k as int] > start_after);
            }
            lemma_count_at_most(self.ids@, start_after, k as int);
        }
        let mut out: Vec<u64> = Vec::new();
        let mut i: usize = k;
        while i < self.ids.len() && out.len() < limit
            invariant
                k <= i <= self.ids@.len(),
                out@.len() == i - k,
                out@.len() <= limit,
                out@ == self.ids@.subrange(k as int, i as int),
            decreases self.ids@.len() - i,
        {
            out.push(self.ids[i]);
            i = i + 1;
            assert(out@ =~= self.ids@.subrange(k as int, i as int));
        }
        out
    }
}

/// A write-once map from ids to ids.
pub struct IdMap {
    entries: Vec<(u64, u64)>,
    contents: Ghost<Map<u64, u64>>,
}

impl View for IdMap {
    type V = Map<u64, u64>;

    closed spec fn view(&self) -> Map<u64, u64> {
        self.contents@
    }
}

impl IdMap {
    pub closed spec fn wf(&self) -> bool {
        &&& forall|i: int|
            0 <= i < self.entries@.len() ==> #[trigger] self.contents@.contains_key(self.entries@[i].0)
                && self.contents@[self.entries@[i].0] == self.entries@[i].1
        &&& forall|k: u64|
            #[trigger] self.contents@.contains_key(k) ==> exists|i: int|
                0 <= i < self.entries@.len() && self.entries@[i].0 == k
    }

    pub fn new() -> (r: IdMap)
        ensures
            r.wf(),
            r@ == Map::<u64, u64>::empty(),
    {
        IdMap { entries: Vec::new(), contents: Ghost(Map::empty()) }
    }

    pub fn get(&self, key: u64) -> (r: Option<u64>)
        requires
            self.wf(),
        ensures
            r is Some == self@.contains_key(key),
            r is Some ==> r->Some_0 == self@[key],
    {
        let mut i: usize = 0;
        while i < self.entries.len()
            invariant
                self.wf(),
                0 <= i <= self.entries@.len(),
                forall|j: int| 0 <= j < i ==> self.entries@[j].0 != key,
            decreases self.entries@.len() - i,
        {
            if self.entries[i].0 == key {
                assert(self.contents@.contains_key(self.entries@[i as int].0));
                return Some(self.entries[i].1);
            }
            i = i + 1;
        }
        None
    }

    /// Compare-and-insert: maps `key` to `value` unless `key` is already
    /// mapped, and tells whether it did.
    pub fn insert_new(&mut self, key: u64, value: u64) -> (r: bool)
        requires
            old(self).wf(),
        ensures
            final(self).wf(),
            r == !old(self)@.contains_key(key),
            r ==> final(self)@ == old(self)@.insert(key, value),
            !r ==> final(self)@ == old(self)@,
    {
        if self.get(key).is_some() {
            return false;
        }
        let ghost before = self.entries@;
        self.entries.push((key, value));
        self.contents = Ghost(self.contents@.insert(key, value));
        proof {
            let after = self.entries@;
            assert forall|i: int| 0 <= i < after.len() implies #[trigger] self.contents@.contains_key(after[i].0)
                && self.contents@[after[i].0] == after[i].1 by {
                if i < before.len() {
                    assert(after[i] == before[i]);
                    assert(old(self).contents@.contains_key(before[i].0));
                }
            }
            assert forall|k: u64| #[trigger] self.contents@.contains_key(k) implies exists|j: int|
                0 <= j < after.len() && after[j].0 == k by {
                if k == key {
                    assert(after[before.len() as int].0 == k);
                } else {
                    assert(old(self).contents@.contains_key(k));
                    let j = choose|j: int| 0 <= j < before.len() && before[j].0 == k;
                    assert(after[j] == before[j]);
                }
            }
        }
        true
    }
}

} // verus!
