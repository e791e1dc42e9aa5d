//! An in-memory ride store: a key-value keyspace of ride records.
//!
//! Keys are unique, a record is written whole, and a key that has been
//! deleted is retired: it can never hold a record again.
use vstd::prelude::*;
use crate::ride::{Ride, RideModel};

verus! {

/// Why a store operation did not happen.
#[derive(Clone, Copy, Debug, PartialEq, Eq, Structural)]
pub enum StoreError {
    /// The key is live or retired; nothing was written.
    KeyTaken,
}

pub struct RideStore {
    keys: Vec<String>,
    rides: Vec<Ride>,
    retired: Vec<String>,
    records: Ghost<Map<Seq<char>, RideModel>>,
    tombstones: Ghost<Set<Seq<char>>>,
}

/// Position of `key` among `keys`, if it is there.
fn position_of(keys: &Vec<String>, key: &String) -> (r: Option<usize>)
    ensures
        match r {
            Some(i) => i < keys@.len() && keys@[i as int]@ == key@,
            None => forall|j: int| 0 <= j < keys@.len() ==> keys@[j]@ != key@,
        },
{
    let mut i: usize = 0;
    while i < keys.len()
        invariant
            i <= keys@.len(),
            forall|j: int| 0 <= j < i ==> keys@[j]@ != key@,
        decreases keys@.len() - i,
    {
        if keys[i] == *key {
            return Some(i);
        }
        i = i + 1;
    }
    None
}

impl RideStore {
    /// The live records, by key.
    pub closed spec fn records(&self) -> Map<Seq<char>, RideModel> {
        self.records@
    }

    /// The keys that have been deleted.
    pub closed spec fn retired_keys(&self) -> Set<Seq<char>> {
        self.tombstones@
    }

    pub closed spec fn wf(&self) -> bool {
        &&& self.keys@.len() == self.rides@.len()
        &&& forall|i: int|
            0 <= i < self.keys@.len() ==> #[trigger] self.records@.contains_key(self.keys@[i]@)
                && self.records@[self.keys@[i]@] == self.rides@[i]@
        &&& forall|k: Seq<char>|
            #[trigger] self.records@.contains_key(k) ==> exists|i: int|
                0 <= i < self.keys@.len() && self.keys@[i]@ == k
        &&& forall|i: int, j: int|
            0 <= i < self.keys@.len() && 0 <= j < self.keys@.len() && i != j ==> self.keys@[i]@
                != self.keys@[j]@
        &&& forall|k: Seq<char>|
            #[trigger] self.tombstones@.contains(k) <==> exists|i: int|
                0 <= i < self.retired@.len() && self.retired@[i]@ == k
        &&& forall|k: Seq<char>|
            #[trigger] self.records@.contains_key(k) ==> !self.tombstones@.contains(k)
    }

    /// An empty store.
    pub fn new() -> (r: RideStore)
        ensures
            r.wf(),
            r.records() == Map::<Seq<char>, RideModel>::empty(),
            r.retired_keys() == Set::<Seq<char>>::empty(),
    {
        RideStore {
            keys: Vec::new(),
            rides: Vec::new(),
            retired: Vec::new(),
            records: Ghost(Map::empty()),
            tombstones: Ghost(Set::empty()),
        }
    }

    /// Writes `ride` under `id`, whole, unless `id` is live or retired.
    pub fn create(&mut self, id: String, ride: Ride) -> (r: Result<(), StoreError>)
        requires
            old(self).wf(),
        ensures
            final(self).wf(),
            final(self).retired_keys() == old(self).retired_keys(),
            r is Err <==> (old(self).records().contains_key(id@) || old(self).retired_keys().contains(id@)),
            r is Ok ==> final(self).records() == old(self).records().insert(id@, ride@),
            r is Err ==> final(self).records() == old(self).records() && r == Err::<(), StoreError>(StoreError::KeyTaken),
    {
        if let Some(i) = position_of(&self.keys, &id) {
            assert(self.records@.contains_key(self.keys@[i as int]@));
            return Err(StoreError::KeyTaken);
        }
        if let Some(i) = position_of(&self.retired, &id) {
            assert(self.tombstones@.contains(self.retired@[i as int]@));
            return Err(StoreError::KeyTaken);
        }
        proof {
            if self.records@.contains_key(id@) {
                let i = choose|i: int| 0 <= i < self.keys@.len() && self.keys@[i]@ == id@;
                assert(self.keys@[i]@ != id@);
            }
            if self.tombstones@.contains(id@) {
                let i = choose|i: int| 0 <= i < self.retired@.len() && self.retired@[i]@ == id@;
                assert(self.retired@[i]@ != id@);
            }
        }
        let ghost old_keys = self.keys@;
        let ghost old_tombstones = self.tombstones@;
        let ghost old_retired = self.retired@;
        let ghost old_wf = self.wf();
        let ghost key = id@;
        let ghost model = ride@;
        self.keys.push(id);
        self.rides.push(ride);
        self.records = Ghost(self.records@.insert(key, model));
        assert forall|i: int| 0 <= i < self.keys@.len() implies #[trigger] self.records@.contains_key(self.keys@[i]@)
            && self.records@[self.keys@[i]@] == self.rides@[i]@ by {
            if i < old_keys.len() {
                assert(self.keys@[i] == old_keys[i]);
                assert(old_keys[i]@ != key);
            }
        }
        assert forall|k: Seq<char>| #[trigger] self.records@.contains_key(k) implies exists|i: int|
            0 <= i < self.keys@.len() && self.keys@[i]@ == k by {
            if k == key {
                assert(self.keys@[old_keys.len() as int]@ == k);
            } else {
                let i = choose|i: int| 0 <= i < old_keys.len() && old_keys[i]@ == k;
                assert(self.keys@[i]@ == k);
            }
        }
        assert forall|a: int, b: int|
            0 <= a < self.keys@.len() && 0 <= b < self.keys@.len() && a != b implies self.keys@[a]@
                != self.keys@[b]@ by {
            if a < old_keys.len() {
                assert(self.keys@[a] == old_keys[a]);
            }
            if b < old_keys.len() {
                assert(self.keys@[b] == old_keys[b]);
            }
        }
        assert(!self.tombstones@.contains(key));
        assert forall|k: Seq<char>| #[trigger] self.tombstones@.contains(k) implies exists|i: int|
            0 <= i < self.retired@.len() && self.retired@[i]@ == k by {
            assert(old_tombstones.contains(k));
            assert(old_wf);
            assert(old_retired == self.retired@);
        }
        Ok(())
    }

    /// The record under `id`, if it is live.
    pub fn get(&self, id: &String) -> (r: Option<&Ride>)
        requires
            self.wf(),
        ensures
            r is Some <==> self.records().contains_key(id@),
            r is Some ==> r->Some_0@ == self.records()[id@],
    {
        match position_of(&self.keys, id) {
            Some(i) => {
                assert(self.records@.contains_key(self.keys@[i as int]@));
                Some(&self.rides[i])
            },
            None => {
                proof {
                    if self.records@.contains_key(id@) {
                        let i = choose|i: int| 0 <= i < self.keys@.len() && self.keys@[i]@ == id@;
                        assert(self.keys@[i]@ != id@);
                    }
                }
                None
            },
        }
    }

    /// Removes the record under `id` and retires the key. Deleting a key that
    /// holds no record is no error and changes nothing.
    pub fn delete(&mut self, id: &String)
        requires
            old(self).wf(),
        ensures
            final(self).wf(),
            final(self).records() == old(self).records().remove(id@),
            old(self).records().contains_key(id@) ==> final(self).retired_keys() == old(self).retired_keys().insert(id@),
            !old(self).records().contains_key(id@) ==> final(self).retired_keys() == old(self).retired_keys(),
    {
        match position_of(&self.keys, id) {
            None => {
                proof {
                    if self.records@.contains_key(id@) {
                        let i = choose|i: int| 0 <= i < self.keys@.len() && self.keys@[i]@ == id@;
                        assert(self.keys@[i]@ != id@);
                    }
                    assert(self.records@.remove(id@) =~= self.records@);
                }
            },
            Some(i) => {
                let ghost old_keys = self.keys@;
                let ghost old_rides = self.rides@;
                let ghost old_retired = self.retired@;
                let ghost key = id@;
                let k = self.keys.remove(i);
                let _ = self.rides.remove(i);
                self.retired.push(k);
                self.records = Ghost(self.records@.remove(key));
                self.tombstones = Ghost(self.tombstones@.insert(key));
                assert forall|j: int| 0 <= j < self.keys@.len() implies #[trigger] self.records@.contains_key(self.keys@[j]@)
                    && self.records@[self.keys@[j]@] == self.rides@[j]@ by {
                    if j < i {
                        assert(self.keys@[j] == old_keys[j]);
                        assert(self.rides@[j] == old_rides[j]);
                        assert(old_keys[j]@ != old_keys[i as int]@);
                    } else {
                        assert(self.keys@[j] == old_keys[j + 1]);
                        assert(self.rides@[j] == old_rides[j + 1]);
                        assert(old_keys[j + 1]@ != old_keys[i as int]@);
                    }
                }
                assert forall|k2: Seq<char>| #[trigger] self.records@.contains_key(k2) implies exists|j: int|
                    0 <= j < self.keys@.len() && self.keys@[j]@ == k2 by {
                    let j = choose|j: int| 0 <= j < old_keys.len() && old_keys[j]@ == k2;
                    if j < i {
                        assert(self.keys@[j]@ == k2);
                    } else {
                        assert(j != i);
                        assert(self.keys@[j - 1]@ == k2);
                    }
                }
                assert forall|a: int, b: int|
                    0 <= a < self.keys@.len() && 0 <= b < self.keys@.len() && a != b implies self.keys@[a]@
                        != self.keys@[b]@ by {
                    let a0 = if a < i { a } else { a + 1 };
                    let b0 = if b < i { b } else { b + 1 };
                    assert(self.keys@[a] == old_keys[a0]);
                    assert(self.keys@[b] == old_keys[b0]);
                }
                assert forall|k2: Seq<char>| #[trigger] self.tombstones@.contains(k2) <==> exists|j: int|
                    0 <= j < self.retired@.len() && self.retired@[j]@ == k2 by {
                    if k2 == key {
                        assert(self.retired@[old_retired.len() as int]@ == k2);
                    }
                    if exists|j: int| 0 <= j < old_retired.len() && old_retired[j]@ == k2 {
                        let j = choose|j: int| 0 <= j < old_retired.len() && old_retired[j]@ == k2;
                        assert(self.retired@[j]@ == k2);
                    }
                    if exists|j: int| 0 <= j < self.retired@.len() && self.retired@[j]@ == k2 {
                        let j = choose|j: int| 0 <= j < self.retired@.len() && self.retired@[j]@ == k2;
                        if j < old_retired.len() {
                            assert(old_retired[j]@ == k2);
                        }
                    }
                }
            },
        }
    }
}

} // verus!
