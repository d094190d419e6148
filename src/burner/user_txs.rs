//! The audit trail of the source side: for each user, one record per call
//! that requested migrations, keyed by a request id of that user.
use vstd::prelude::*;

verus! {

/// One call of a user: the migrations it created and the block it ran in.
pub struct UserReq {
    pub user: String,
    pub req_id: u32,
    pub tx_ids: Vec<u64>,
    pub block_num: u64,
    pub timestamp: u64,
}

/// What the trail holds for a key: migration ids, block height, time.
pub type ReqRecord = (Seq<u64>, u64, u64);

pub open spec fn record_of(e: UserReq) -> ReqRecord {
    (e.tx_ids@, e.block_num, e.timestamp)
}

pub open spec fn key_of(e: UserReq) -> (Seq<char>, u32) {
    (e.user@, e.req_id)
}

/// The request ids that `user` has in `m`.
pub open spec fn ids_of(m: Map<(Seq<char>, u32), ReqRecord>, user: Seq<char>) -> Set<u32> {
    Set::new(|id: u32| m.contains_key((user, id)))
}

/// `x` lies beyond the cursor `c` in the direction of the listing.
pub open spec fn beyond(x: u32, c: u32, descending: bool) -> bool {
    if descending {
        x < c
    } else {
        x > c
    }
}

/// `r` lists, in the direction given, the first ids of `ids` beyond the
/// cursor `start`, as many as there are up to `limit`.
pub open spec fn is_page(r: Seq<u32>, ids: Set<u32>, start: u32, descending: bool, limit: nat) -> bool {
    &&& r.len() <= limit
    &&& forall|i: int| 0 <= i < r.len() ==> ids.contains(#[trigger] r[i]) && beyond(r[i], start, descending)
    &&& forall|i: int, j: int| 0 <= i < j < r.len() ==> beyond(r[j], r[i], descending)
    &&& forall|x: u32|
        ids.contains(x) && beyond(x, start, descending) && (r.len() < limit || (r.len() > 0 && (beyond(
            r.last(),
            x,
            descending,
        ) || r.last() == x))) ==> r.contains(x)
}

pub struct UserTxs {
    entries: Vec<UserReq>,
    contents: Ghost<Map<(Seq<char>, u32), ReqRecord>>,
}

impl UserTxs {
    pub closed spec fn map(&self) -> Map<(Seq<char>, u32), ReqRecord> {
        self.contents@
    }

    pub closed spec fn wf(&self) -> bool {
        &&& forall|i: int|
            0 <= i < self.entries@.len() ==> #[trigger] self.contents@.contains_key(key_of(self.entries@[i]))
                && self.contents@[key_of(self.entries@[i])] == record_of(self.entries@[i])
        &&& forall|k: (Seq<char>, u32)|
            #[trigger] self.contents@.contains_key(k) ==> exists|i: int|
                0 <= i < self.entries@.len() && key_of(self.entries@[i]) == k
        &&& forall|i: int, j: int|
            0 <= i < self.entries@.len() && 0 <= j < self.entries@.len() && i != j ==> key_of(self.entries@[i])
                != key_of(self.entries@[j])
    }

    pub fn new() -> (r: UserTxs)
        ensures
            r.wf(),
            r.map() == Map::<(Seq<char>, u32), ReqRecord>::empty(),
    {
        UserTxs { entries: Vec::new(), contents: Ghost(Map::empty()) }
    }

    fn find(&self, user: &String, req_id: u32) -> (r: Option<usize>)
        requires
            self.wf(),
        ensures
            match r {
                Some(i) => i < self.entries@.len() && key_of(self.entries@[i as int]) == (user@, req_id),
                None => !self.map().contains_key((user@, req_id)),
            },
    {
        let mut i: usize = 0;
        while i < self.entries.len()
            invariant
                0 <= i <= self.entries@.len(),
                forall|j: int| 0 <= j < i ==> key_of(self.entries@[j]) != (user@, req_id),
            decreases self.entries@.len() - i,
        {
            if self.entries[i].req_id == req_id && self.entries[i].user == *user {
                return Some(i);
            }
            i = i + 1;
        }
        None
    }

    pub fn get(&self, user: &String, req_id: u32) -> (r: Option<&UserReq>)
        requires
            self.wf(),
        ensures
            r is Some == self.map().contains_key((user@, req_id)),
            r is Some ==> record_of(*r->Some_0) == self.map()[(user@, req_id)],
    {
        match self.find(user, req_id) {
            Some(i) => {
                proof {
                    assert(self.contents@.contains_key(key_of(self.entries@[i as int])));
                }
                Some(&self.entries[i])
            },
            None => None,
        }
    }

    /// Compare-and-insert: records `entry` unless its key is taken, and
    /// tells whether it did.
    pub fn insert_new(&mut self, entry: UserReq) -> (r: bool)
        requires
            old(self).wf(),
        ensures
            final(self).wf(),
            r == !old(self).map().contains_key(key_of(entry)),
            r ==> final(self).map() == old(self).map().insert(key_of(entry), record_of(entry)),
            !r ==> final(self).map() == old(self).map(),
    {
        if self.find(&entry.user, entry.req_id).is_some() {
            return false;
        }
        let ghost before = self.entries@;
        let ghost k = key_of(entry);
        let ghost v = record_of(entry);
        self.entries.push(entry);
        self.contents = Ghost(self.contents@.insert(k, v));
        proof {
            let after = self.entries@;
            assert forall|i: int| 0 <= i < after.len() implies #[trigger] self.contents@.contains_key(
                key_of(after[i]),
            ) && self.contents@[key_of(after[i])] == record_of(after[i]) by {
                if i < before.len() {
                    assert(after[i] == before[i]);
                    assert(old(self).contents@.contains_key(key_of(before[i])));
                }
            }
            assert forall|q: (Seq<char>, u32)| #[trigger] self.contents@.contains_key(q) implies exists|j: int|
                0 <= j < after.len() && key_of(after[j]) == q by {
                if q == k {
                    assert(key_of(after[before.len() as int]) == q);
                } else {
                    assert(old(self).contents@.contains_key(q));
                    let j = choose|j: int| 0 <= j < before.len() && key_of(before[j]) == q;
                    assert(after[j] == before[j]);
                }
            }
            assert forall|i: int, j: int|
                0 <= i < after.len() && 0 <= j < after.len() && i != j implies key_of(after[i]) != key_of(after[j]) by {
                if i < before.len() {
                    assert(after[i] == before[i]);
                    assert(old(self).contents@.contains_key(key_of(before[i])));
                }
                if j < before.len() {
                    assert(after[j] == before[j]);
                    assert(old(self).contents@.contains_key(key_of(before[j])));
                }
            }
        }
        true
    }

    /// Drops the record of `(user, req_id)`, if there is one.
    pub fn remove(&mut self, user: &String, req_id: u32)
        requires
            old(self).wf(),
        ensures
            final(self).wf(),
            final(self).map() == old(self).map().remove((user@, req_id)),
    {
        let ghost k = (user@, req_id);
        match self.find(user, req_id) {
            None => {
                assert(self.map() =~= self.map().remove(k));
            },
            Some(i) => {
                let ghost before = self.entries@;
                self.entries.remove(i);
                self.contents = Ghost(self.contents@.remove(k));
                proof {
                    let after = self.entries@;
                    assert(after =~= before.remove(i as int));
                    assert forall|a: int| 0 <= a < after.len() implies #[trigger] self.contents@.contains_key(
                        key_of(after[a]),
                    ) && self.contents@[key_of(after[a])] == record_of(after[a]) by {
                        let a2 = if a < i { a } else { a + 1 };
                        assert(after[a] == before[a2]);
                        assert(a2 != i);
                        assert(old(self).contents@.contains_key(key_of(before[a2])));
                    }
                    assert forall|q: (Seq<char>, u32)| #[trigger] self.contents@.contains_key(q) implies exists|j: int|
                        0 <= j < after.len() && key_of(after[j]) == q by {
                        assert(old(self).contents@.contains_key(q));
                        let j = choose|j: int| 0 <= j < before.len() && key_of(before[j]) == q;
                        assert(j != i);
                        if j < i {
                            assert(after[j] == before[j]);
                        } else {
                            assert(after[j - 1] == before[j]);
                        }
                    }
                    assert forall|a: int, b: int|
                        0 <= a < after.len() && 0 <= b < after.len() && a != b implies key_of(after[a]) != key_of(after[b]) by {
                        let a2 = if a < i { a } else { a + 1 };
                        let b2 = if b < i { b } else { b + 1 };
                        assert(after[a] == before[a2] && after[b] == before[b2]);
                    }
                }
            },
        }
    }

    /// The highest request id of `user`, or 0 when there is none.
    pub fn last_req_id(&self, user: &String) -> (r: u32)
        requires
            self.wf(),
        ensures
            forall|id: u32| ids_of(self.map(), user@).contains(id) ==> id <= r,
            r != 0 ==> ids_of(self.map(), user@).contains(r),
    {
        let mut best: u32 = 0;
        let mut i: usize = 0;
        while i < self.entries.len()
            invariant
                self.wf(),
                0 <= i <= self.entries@.len(),
                forall|j: int| 0 <= j < i && self.entries@[j].user@ == user@ ==> self.entries@[j].req_id <= best,
                best != 0 ==> self.map().contains_key((user@, best)),
            decreases self.entries@.len() - i,
        {
            if self.entries[i].user == *user && self.entries[i].req_id > best {
                best = self.entries[i].req_id;
                assert(self.contents@.contains_key(key_of(self.entries@[i as int])));
            }
            i = i + 1;
        }
        proof {
            assert forall|id: u32| ids_of(self.map(), user@).contains(id) implies id <= best by {
                assert(self.contents@.contains_key((user@, id)));
                let j = choose|j: int| 0 <= j < self.entries@.len() && key_of(self.entries@[j]) == (user@, id);
            }
        }
        best
    }

    /// The id of `user` nearest beyond the cursor `c`, if any.
    fn next_beyond(&self, user: &String, c: u32, descending: bool) -> (r: Option<u32>)
        requires
            self.wf(),
        ensures
            match r {
                Some(x) => ids_of(self.map(), user@).contains(x) && beyond(x, c, descending) && forall|y: u32|
                    ids_of(self.map(), user@).contains(y) && beyond(y, c, descending) ==> y == x || beyond(
                        y,
                        x,
                        descending,
                    ),
                None => forall|y: u32| ids_of(self.map(), user@).contains(y) ==> !beyond(y, c, descending),
            },
    {
        let mut best: Option<u32> = None;
        let mut i: usize = 0;
        while i < self.entries.len()
            invariant
                self.wf(),
                0 <= i <= self.entries@.len(),
                match best {
                    Some(x) => self.map().contains_key((user@, x)) && beyond(x, c, descending) && forall|j: int|
                        0 <= j < i && self.entries@[j].user@ == user@ && beyond(self.entries@[j].req_id, c, descending)
                            ==> self.entries@[j].req_id == x || beyond(self.entries@[j].req_id, x, descending),
                    None => forall|j: int|
                        0 <= j < i && self.entries@[j].user@ == user@ ==> !beyond(self.entries@[j].req_id, c, descending),
                },
            decreases self.entries@.len() - i,
        {
            let id = self.entries[i].req_id;
            let ahead = if descending { id < c } else { id > c };
            if self.entries[i].user == *user && ahead {
                let nearer = match best {
                    None => true,
                    Some(x) => if descending { id > x } else { id < x },
                };
                if nearer {
                    best = Some(id);
                    assert(self.contents@.contains_key(key_of(self.entries@[i as int])));
                }
            }
            i = i + 1;
        }
        proof {
            assert forall|y: u32| ids_of(self.map(), user@).contains(y) implies (match best {
                Some(x) => beyond(y, c, descending) ==> y == x || beyond(y, x, descending),
                None => !beyond(y, c, descending),
            }) by {
                assert(self.contents@.contains_key((user@, y)));
                let j = choose|j: int| 0 <= j < self.entries@.len() && key_of(self.entries@[j]) == (user@, y);
            }
        }
        best
    }

    /// Request ids of `user` beyond the exclusive cursor `start_after`,
    /// ascending or descending, at most `limit` of them.
    pub fn page(&self, user: &String, start_after: u32, descending: bool, limit: usize) -> (r: Vec<u32>)
        requires
            self.wf(),
        ensures
            is_page(r@, ids_of(self.map(), user@), start_after, descending, limit as nat),
    {
        let ghost ids = ids_of(self.map(), user@);
        let mut out: Vec<u32> = Vec::new();
        let mut cursor: u32 = start_after;
        let mut done = false;
        while !done && out.len() < limit
            invariant
                self.wf(),
                ids == ids_of(self.map(), user@),
                out@.len() <= limit,
                out@.len() == 0 ==> cursor == start_after,
                out@.len() > 0 ==> cursor == out@.last(),
                forall|i: int| 0 <= i < out@.len() ==> ids.contains(#[trigger] out@[i]) && beyond(out@[i], start_after, descending),
                forall|i: int, j: int| 0 <= i < j < out@.len() ==> beyond(out@[j], out@[i], descending),
                forall|x: u32|
                    ids.contains(x) && beyond(x, start_after, descending) && !beyond(x, cursor, descending) ==> out@.contains(x),
                done ==> forall|x: u32| ids.contains(x) ==> !beyond(x, cursor, descending),
            decreases limit - out@.len(), if done { 0int } else { 1int },
        {
            match self.next_beyond(user, cursor, descending) {
                None => {
                    done = true;
                },
                Some(x) => {
                    let ghost before = out@;
                    out.push(x);
                    proof {
                        assert(out@[out@.len() - 1] == x);
                        assert forall|y: u32|
                            ids.contains(y) && beyond(y, start_after, descending) && !beyond(y, x, descending) implies out@.contains(y) by {
                            if beyond(y, cursor, descending) {
                                assert(y == x);
                                assert(out@[before.len() as int] == y);
                            } else {
                                let k = choose|k: int| 0 <= k < before.len() && before[k] == y;
                                assert(out@[k] == y);
                            }
                        }
                        assert forall|i: int| 0 <= i < out@.len() implies ids.contains(#[trigger] out@[i]) && beyond(out@[i], start_after, descending) by {
                            if i < before.len() {
                                assert(out@[i] == before[i]);
                            } else if before.len() > 0 {
                                assert(beyond(before.last(), start_after, descending));
                            }
                        }
                        assert forall|i: int, j: int| 0 <= i < j < out@.len() implies beyond(out@[j], out@[i], descending) by {
                            if j == before.len() && i < before.len() {
                                assert(out@[i] == before[i]);
                                if i < before.len() - 1 {
                                    assert(beyond(before.last(), before[i], descending));
                                }
                            } else if j < before.len() {
                                assert(out@[i] == before[i] && out@[j] == before[j]);
                            }
                        }
                    }
                    cursor = x;
                },
            }
        }
        proof {
            assert forall|x: u32|
                ids.contains(x) && beyond(x, start_after, descending) && (out@.len() < limit || (out@.len() > 0 && (
                beyond(out@.last(), x, descending) || out@.last() == x))) implies out@.contains(x) by {
                if !done {
                    assert(!beyond(x, cursor, descending));
                }
            }
        }
        out
    }
}

} // verus!
