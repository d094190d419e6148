//! The non-fungible tokens held back while their migration is in flight.
use vstd::prelude::*;

verus! {

pub struct NftKey {
    pub asset: String,
    pub nft_id: String,
}

/// A set of (asset, token id) pairs.
pub struct Reservations {
    keys: Vec<NftKey>,
}

pub open spec fn pair_of(k: NftKey) -> (Seq<char>, Seq<char>) {
    (k.asset@, k.nft_id@)
}

impl View for Reservations {
    type V = Set<(Seq<char>, Seq<char>)>;

    closed spec fn view(&self) -> Set<(Seq<char>, Seq<char>)> {
        Set::new(|p: (Seq<char>, Seq<char>)| exists|i: int| 0 <= i < self.keys@.len() && pair_of(self.keys@[i]) == p)
    }
}

impl Reservations {
    pub closed spec fn wf(&self) -> bool {
        forall|i: int, j: int|
            0 <= i < self.keys@.len() && 0 <= j < self.keys@.len() && i != j ==> pair_of(self.keys@[i]) != pair_of(
                self.keys@[j],
            )
    }

    pub fn new() -> (r: Reservations)
        ensures
            r.wf(),
            r@ == Set::<(Seq<char>, Seq<char>)>::empty(),
    {
        let r = Reservations { keys: Vec::new() };
        assert(r@ =~= Set::<(Seq<char>, Seq<char>)>::empty());
        r
    }

    fn find(&self, asset: &String, nft_id: &String) -> (r: Option<usize>)
        ensures
            match r {
                Some(i) => i < self.keys@.len() && pair_of(self.keys@[i as int]) == (asset@, nft_id@),
                None => !self@.contains((asset@, nft_id@)),
            },
    {
        let mut i: usize = 0;
        while i < self.keys.len()
            invariant
                0 <= i <= self.keys@.len(),
                forall|j: int| 0 <= j < i ==> pair_of(self.keys@[j]) != (asset@, nft_id@),
            decreases self.keys@.len() - i,
        {
            if self.keys[i].asset == *asset && self.keys[i].nft_id == *nft_id {
                return Some(i);
            }
            i = i + 1;
        }
        None
    }

    pub fn contains(&self, asset: &String, nft_id: &String) -> (r: bool)
        ensures
            r == self@.contains((asset@, nft_id@)),
    {
        self.find(asset, nft_id).is_some()
    }

    pub fn insert(&mut self, asset: String, nft_id: String)
        requires
            old(self).wf(),
            !old(self)@.contains((asset@, nft_id@)),
        ensures
            final(self).wf(),
            final(self)@ == old(self)@.insert((asset@, nft_id@)),
    {
        let ghost p = (asset@, nft_id@);
        let ghost before = self.keys@;
        self.keys.push(NftKey { asset, nft_id });
        proof {
            let after = self.keys@;
            assert(pair_of(after[before.len() as int]) == p);
            assert forall|i: int, j: int|
                0 <= i < after.len() && 0 <= j < after.len() && i != j implies pair_of(after[i]) != pair_of(after[j]) by {
                if i < before.len() && j < before.len() {
                    assert(after[i] == before[i] && after[j] == before[j]);
                } else if i < before.len() {
                    assert(after[i] == before[i]);
                } else if j < before.len() {
                    assert(after[j] == before[j]);
                }
            }
            assert forall|q: (Seq<char>, Seq<char>)| self@.contains(q) <==> old(self)@.insert(p).contains(q) by {
                if exists|i: int| 0 <= i < after.len() && pair_of(after[i]) == q {
                    let i = choose|i: int| 0 <= i < after.len() && pair_of(after[i]) == q;
                    if i < before.len() {
                        assert(after[i] == before[i]);
                    }
                }
                if exists|i: int| 0 <= i < before.len() && pair_of(before[i]) == q {
                    let i = choose|i: int| 0 <= i < before.len() && pair_of(before[i]) == q;
                    assert(after[i] == before[i]);
                }
            }
            assert(self@ =~= old(self)@.insert(p));
        }
    }

    pub fn remove(&mut self, asset: &String, nft_id: &String)
        requires
            old(self).wf(),
        ensures
            final(self).wf(),
            final(self)@ == old(self)@.remove((asset@, nft_id@)),
    {
        let ghost p = (asset@, nft_id@);
        match self.find(asset, nft_id) {
            None => {
                assert(self@ =~= old(self)@.remove(p));
            },
            Some(i) => {
                let ghost before = self.keys@;
                self.keys.remove(i);
                proof {
                    let after = self.keys@;
                    assert(after =~= before.remove(i as int));
                    assert forall|a: int, b: int|
                        0 <= a < after.len() && 0 <= b < after.len() && a != b implies pair_of(after[a]) != pair_of(after[b]) by {
                        let a2 = if a < i { a } else { a + 1 };
                        let b2 = if b < i { b } else { b + 1 };
                        assert(after[a] == before[a2] && after[b] == before[b2]);
                    }
                    assert forall|q: (Seq<char>, Seq<char>)| self@.contains(q) <==> old(self)@.remove(p).contains(q) by {
                        if exists|k: int| 0 <= k < after.len() && pair_of(after[k]) == q {
                            let k = choose|k: int| 0 <= k < after.len() && pair_of(after[k]) == q;
                            let k2 = if k < i { k } else { k + 1 };
                            assert(after[k] == before[k2]);
                            assert(k2 != i);
                        }
                        if q != p && exists|k: int| 0 <= k < before.len() && pair_of(before[k]) == q {
                            let k = choose|k: int| 0 <= k < before.len() && pair_of(before[k]) == q;
                            assert(k != i);
                            if k < i {
                                assert(after[k] == before[k]);
                            } else {
                                assert(after[k - 1] == before[k]);
                            }
                        }
                    }
                    assert(self@ =~= old(self)@.remove(p));
                }
            },
        }
    }

    /// Takes over every pair of `other`, none of which is here yet.
    pub fn absorb(&mut self, other: Reservations)
        requires
            old(self).wf(),
            other.wf(),
            old(self)@.disjoint(other@),
        ensures
            final(self).wf(),
            final(self)@ == old(self)@.union(other@),
    {
        let mut i: usize = 0;
        while i < other.keys.len()
            invariant
                self.wf(),
                other.wf(),
                0 <= i <= other.keys@.len(),
                old(self)@.disjoint(other@),
                self@ == old(self)@.union(
                    Set::new(|p: (Seq<char>, Seq<char>)| exists|j: int| 0 <= j < i && pair_of(other.keys@[j]) == p),
                ),
            decreases other.keys@.len() - i,
        {
            let ghost p = pair_of(other.keys@[i as int]);
            let ghost seen = Set::new(|q: (Seq<char>, Seq<char>)| exists|j: int| 0 <= j < i && pair_of(other.keys@[j]) == q);
            assert(!self@.contains(p)) by {
                assert(other@.contains(p));
                if seen.contains(p) {
                    let j = choose|j: int| 0 <= j < i && pair_of(other.keys@[j]) == p;
                }
            }
            let asset = other.keys[i].asset.clone();
            let nft_id = other.keys[i].nft_id.clone();
            self.insert(asset, nft_id);
            i = i + 1;
            proof {
                let seen2 = Set::new(|q: (Seq<char>, Seq<char>)| exists|j: int| 0 <= j < i && pair_of(other.keys@[j]) == q);
                assert(seen2 =~= seen.insert(p)) by {
                    assert forall|q| seen2.contains(q) implies seen.insert(p).contains(q) by {
                        let j = choose|j: int| 0 <= j < i && pair_of(other.keys@[j]) == q;
                        if j < i - 1 {
                            assert(seen.contains(q));
                        }
                    }
                    assert forall|q| seen.insert(p).contains(q) implies seen2.contains(q) by {
                        if q != p {
                            let j = choose|j: int| 0 <= j < i - 1 && pair_of(other.keys@[j]) == q;
                            assert(0 <= j < i);
                        }
                    }
                }
                assert(self@ =~= old(self)@.union(seen2));
            }
        }
        proof {
            let seen = Set::new(|q: (Seq<char>, Seq<char>)| exists|j: int| 0 <= j < i && pair_of(other.keys@[j]) == q);
            assert(seen =~= other@);
        }
    }
}

} // verus!
