//! A table keyed by 32-byte content hashes, holding at most one value per key.

use vstd::prelude::*;
use crate::encoding::same_bytes32;
use crate::types::HashValue;

verus! {

/// A table from hashes to values; the ledger and the channel register are such tables.
#[derive(Clone)]
pub struct Store<V> {
    entries: Vec<(HashValue, V)>,
    contents: Ghost<Map<Seq<u8>, V>>,
}

impl<V> View for Store<V> {
    type V = Map<Seq<u8>, V>;

    closed spec fn view(&self) -> Map<Seq<u8>, V> {
        self.contents@
    }
}

impl<V> Store<V> {
    /// Entries have distinct keys and hold exactly the contents.
    pub closed spec fn wf(&self) -> bool {
        &&& forall|i: int, j: int|
            0 <= i < j < self.entries@.len() ==> (#[trigger] self.entries@[i]).0@ != (
            #[trigger] self.entries@[j]).0@
        &&& forall|i: int|
            0 <= i < self.entries@.len() ==> self.contents@.contains_key(
                (#[trigger] self.entries@[i]).0@,
            ) && self.contents@[self.entries@[i].0@] == self.entries@[i].1
        &&& forall|k: Seq<u8>|
            #[trigger] self.contents@.contains_key(k) ==> exists|i: int|
                0 <= i < self.entries@.len() && (#[trigger] self.entries@[i]).0@ == k
    }

    /// An empty table.
    pub fn new() -> (r: Self)
        ensures
            r.wf(),
            r@ == Map::<Seq<u8>, V>::empty(),
    {
        Store { entries: Vec::new(), contents: Ghost(Map::empty()) }
    }

    /// The position of `k` among the entries.
    fn find(&self, k: &HashValue) -> (r: Option<usize>)
        requires
            self.wf(),
        ensures
            match r {
                Some(i) => i < self.entries@.len() && self.entries@[i as int].0@ == k@,
                None => !self@.contains_key(k@),
            },
    {
        let mut i: usize = 0;
        while i < self.entries.len()
            invariant
                self.wf(),
                i <= self.entries@.len(),
                forall|j: int| 0 <= j < i ==> (#[trigger] self.entries@[j]).0@ != k@,
            decreases self.entries@.len() - i,
        {
            if same_bytes32(&self.entries[i].0, k) {
                return Some(i);
            }
            i = i + 1;
        }
        None
    }

    /// The value stored under `k`, if any.
    pub fn get(&self, k: &HashValue) -> (r: Option<&V>)
        requires
            self.wf(),
        ensures
            match r {
                Some(v) => self@.contains_key(k@) && *v == self@[k@],
                None => !self@.contains_key(k@),
            },
    {
        match self.find(k) {
            Some(i) => Some(&self.entries[i].1),
            None => None,
        }
    }

    /// Stores `v` under `k`, replacing what was there.
    pub fn insert(&mut self, k: HashValue, v: V)
        requires
            old(self).wf(),
        ensures
            final(self).wf(),
            final(self)@ == old(self)@.insert(k@, v),
    {
        let ghost mut removed: int = -1;
        if let Some(i) = self.find(&k) {
            let _ = self.entries.remove(i);
            proof {
                removed = i as int;
            }
        }
        let ghost before = self.entries@;
        self.entries.push((k, v));
        self.contents = Ghost(self.contents@.insert(k@, v));
        proof {
            let olde = old(self).entries@;
            assert(forall|j: int| 0 <= j < before.len() ==> (#[trigger] before[j]).0@ != k@);
            assert forall|k2: Seq<u8>| #[trigger] self.contents@.contains_key(k2) implies exists|
                i: int,
            | 0 <= i < self.entries@.len() && (#[trigger] self.entries@[i]).0@ == k2 by {
                if k2 == k@ {
                    assert(self.entries@[before.len() as int].0@ == k2);
                } else {
                    assert(old(self)@.contains_key(k2));
                    let i0 = choose|i: int| 0 <= i < olde.len() && (#[trigger] olde[i]).0@ == k2;
                    if removed >= 0 {
                        assert(olde[removed].0@ == k@);
                        if i0 < removed {
                            assert(self.entries@[i0].0@ == k2);
                        } else {
                            assert(self.entries@[i0 - 1].0@ == k2);
                        }
                    } else {
                        assert(self.entries@[i0].0@ == k2);
                    }
                }
            }
        }
    }

    /// Removes and returns the value stored under `k`, if any.
    pub fn take(&mut self, k: &HashValue) -> (r: Option<V>)
        requires
            old(self).wf(),
        ensures
            final(self).wf(),
            final(self)@ == old(self)@.remove(k@),
            match r {
                Some(v) => old(self)@.contains_key(k@) && v == old(self)@[k@],
                None => !old(self)@.contains_key(k@),
            },
    {
        match self.find(k) {
            Some(i) => {
                let (_, v) = self.entries.remove(i);
                self.contents = Ghost(self.contents@.remove(k@));
                proof {
                    let olde = old(self).entries@;
                    assert forall|k2: Seq<u8>| #[trigger]
                        self.contents@.contains_key(k2) implies exists|j: int|
                        0 <= j < self.entries@.len() && (#[trigger] self.entries@[j]).0@
                            == k2 by {
                        let j0 = choose|j: int|
                            0 <= j < olde.len() && (#[trigger] olde[j]).0@ == k2;
                        if j0 < i {
                            assert(self.entries@[j0].0@ == k2);
                        } else {
                            assert(self.entries@[j0 - 1].0@ == k2);
                        }
                    }
                }
                Some(v)
            },
            None => {
                assert(self.contents@.remove(k@) =~= self.contents@);
                None
            },
        }
    }
}

} // verus!
