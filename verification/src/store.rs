//! A key-addressed record store with atomic create-once semantics.
//!
//! Every record is created at an address chosen by the caller; creating at
//! an address that is already occupied fails and changes nothing. A message
//! record is sized at creation for at most [`MAX_CONTENT_LEN`] content
//! bytes, so an oversized record is likewise refused by the store itself.
//! Existing records can be read and rewritten in place, never removed.

use crate::records::ChatRoom;
use crate::records::Message;
use crate::records::MAX_CONTENT_LEN;
use vstd::prelude::*;

verus! {

/// A record as the store holds it: either a room registry or one message.
#[derive(Debug)]
pub enum StoredRecord {
    Room(ChatRoom),
    Message(Message),
}

/// The store's own failure modes.
#[derive(Clone, Copy, Debug, PartialEq, Eq, Structural)]
pub enum StoreError {
    /// The record does not fit the fixed layout of its kind.
    RecordTooLarge,
    /// A record already exists at the requested address.
    AddressOccupied,
}

/// Whether `r` fits the fixed layout its kind is sized to at creation. A
/// registry record always fits; a message record fits exactly when its
/// content is at most [`MAX_CONTENT_LEN`] bytes.
pub open spec fn fits_layout(r: StoredRecord) -> bool {
    match r {
        StoredRecord::Room(_) => true,
        StoredRecord::Message(m) => m.encrypted_content@.len() <= MAX_CONTENT_LEN,
    }
}

/// One occupied address and the record stored there.
struct StoreEntry {
    address: Vec<u8>,
    record: StoredRecord,
}

/// The record store. Each address is occupied by at most one record.
pub struct RecordStore {
    entries: Vec<StoreEntry>,
}

/// Compares two byte strings for equality.
fn bytes_equal(a: &Vec<u8>, b: &Vec<u8>) -> (r: bool)
    ensures
        r == (a@ == b@),
{
    if a.len() != b.len() {
        proof {
            assert(a@ != b@);
        }
        return false;
    }
    let mut i: usize = 0;
    while i < a.len()
        invariant
            i <= a@.len(),
            a@.len() == b@.len(),
            forall|j: int| 0 <= j < i ==> a@[j] == b@[j],
        decreases a@.len() - i,
    {
        if a[i] != b[i] {
            proof {
                assert(a@ != b@);
            }
            return false;
        }
        i = i + 1;
    }
    proof {
        assert(a@ =~= b@);
    }
    true
}

impl RecordStore {
    /// Whether some record occupies address `a`.
    pub closed spec fn contains_addr(self, a: Seq<u8>) -> bool {
        exists|i: int| 0 <= i < self.entries@.len() && self.entries@[i].address@ == a
    }

    /// The record occupying address `a`; meaningful only when
    /// `contains_addr(a)` holds.
    pub closed spec fn record_at(self, a: Seq<u8>) -> StoredRecord {
        let i = choose|i: int| 0 <= i < self.entries@.len() && self.entries@[i].address@ == a;
        self.entries@[i].record
    }

    /// How many records the store holds.
    pub closed spec fn num_entries(self) -> nat {
        self.entries@.len()
    }

    /// Each address is occupied by at most one record.
    pub closed spec fn wf(self) -> bool {
        forall|i: int, j: int|
            0 <= i < j < self.entries@.len() ==> self.entries@[i].address@ != self.entries@[j].address@
    }

    /// In a well-formed store, two entries with one address are one entry.
    proof fn lemma_index_unique(self, i: int, j: int)
        requires
            self.wf(),
            0 <= i < self.entries@.len(),
            0 <= j < self.entries@.len(),
            self.entries@[i].address@ == self.entries@[j].address@,
        ensures
            i == j,
    {
    }

    /// An empty store: every address is free.
    pub fn new() -> (s: RecordStore)
        ensures
            s.wf(),
            s.num_entries() == 0,
            forall|a: Seq<u8>| !s.contains_addr(a),
    {
        RecordStore { entries: Vec::new() }
    }

    /// The index of the entry at `address`, if the address is occupied.
    fn find_index(&self, address: &Vec<u8>) -> (r: Option<usize>)
        ensures
            match r {
                Some(i) => {
                    &&& i < self.entries@.len()
                    &&& self.entries@[i as int].address@ == address@
                    &&& self.contains_addr(address@)
                },
                None => !self.contains_addr(address@),
            },
    {
        let mut i: usize = 0;
        while i < self.entries.len()
            invariant
                i <= self.entries@.len(),
                forall|j: int| 0 <= j < i ==> self.entries@[j].address@ != address@,
            decreases self.entries@.len() - i,
        {
            if bytes_equal(&self.entries[i].address, address) {
                return Some(i);
            }
            i = i + 1;
        }
        None
    }

    /// Reads the record at `address`, or nothing if the address is free.
    pub fn read(&self, address: &Vec<u8>) -> (r: Option<&StoredRecord>)
        requires
            self.wf(),
        ensures
            match r {
                Some(rec) => self.contains_addr(address@) && *rec == self.record_at(address@),
                None => !self.contains_addr(address@),
            },
    {
        match self.find_index(address) {
            Some(i) => {
                proof {
                    let c = choose|c: int|
                        0 <= c < self.entries@.len() && self.entries@[c].address@ == address@;
                    self.lemma_index_unique(i as int, c);
                }
                Some(&self.entries[i].record)
            },
            None => None,
        }
    }

    /// Creates a record at `address`, atomically: the store first sizes the
    /// record, then claims the address. A record that does not fit its
    /// layout, or an address that is already occupied, leaves the store
    /// unchanged. On success exactly the one new record exists, and every
    /// other address is as it was.
    pub fn create(&mut self, address: Vec<u8>, record: StoredRecord) -> (r: Result<(), StoreError>)
        requires
            old(self).wf(),
        ensures
            final(self).wf(),
            !fits_layout(record) ==> r == Err::<(), StoreError>(StoreError::RecordTooLarge)
                && *final(self) == *old(self),
            fits_layout(record) && old(self).contains_addr(address@) ==> r == Err::<(),
                StoreError,
            >(StoreError::AddressOccupied) && *final(self) == *old(self),
            fits_layout(record) && !old(self).contains_addr(address@) ==> {
                &&& r == Ok::<(), StoreError>(())
                &&& final(self).contains_addr(address@)
                &&& final(self).record_at(address@) == record
                &&& final(self).num_entries() == old(self).num_entries() + 1
                &&& final(self).num_entries() <= usize::MAX
                &&& forall|a: Seq<u8>|
                    a != address@ ==> final(self).contains_addr(a) == old(self).contains_addr(a)
                &&& forall|a: Seq<u8>|
                    a != address@ && old(self).contains_addr(a) ==> final(self).record_at(a)
                        == old(self).record_at(a)
            },
    {
        let too_large = match &record {
            StoredRecord::Room(_) => false,
            StoredRecord::Message(m) => m.encrypted_content.len() > MAX_CONTENT_LEN,
        };
        if too_large {
            return Err(StoreError::RecordTooLarge);
        }
        match self.find_index(&address) {
            Some(_) => Err(StoreError::AddressOccupied),
            None => {
                let ghost pre = *self;
                self.entries.push(StoreEntry { address, record });
                // A vector never holds more elements than fit in a usize.
                let occupied: usize = self.entries.len();
                proof {
                    assert(self.entries@.len() == occupied);
                    let n = pre.entries@.len() as int;
                    assert forall|i: int, j: int|
                        0 <= i < j < self.entries@.len() implies self.entries@[i].address@
                        != self.entries@[j].address@ by {
                        if j < n {
                            assert(pre.wf());
                        } else {
                            assert(j == n);
                            assert(!pre.contains_addr(self.entries@[j].address@));
                        }
                    }
                    assert(self.entries@[n].address@ == address@);
                    assert(self.contains_addr(self.entries@[n].address@));
                    let c = choose|c: int|
                        0 <= c < self.entries@.len() && self.entries@[c].address@
                            == self.entries@[n].address@;
                    self.lemma_index_unique(c, n);
                    assert(self.record_at(self.entries@[n].address@) == record);
                    assert forall|a: Seq<u8>| a != self.entries@[n].address@ implies
                        self.contains_addr(a) == pre.contains_addr(a) by {
                        if pre.contains_addr(a) {
                            let w = choose|w: int|
                                0 <= w < pre.entries@.len() && pre.entries@[w].address@ == a;
                            assert(self.entries@[w].address@ == a);
                        }
                        if self.contains_addr(a) {
                            let w = choose|w: int|
                                0 <= w < self.entries@.len() && self.entries@[w].address@ == a;
                            assert(w != n);
                            assert(pre.entries@[w].address@ == a);
                        }
                    }
                    assert forall|a: Seq<u8>|
                        a != self.entries@[n].address@ && pre.contains_addr(a) implies
                        self.record_at(a) == pre.record_at(a) by {
                        let w = choose|w: int|
                            0 <= w < self.entries@.len() && self.entries@[w].address@ == a;
                        let v = choose|v: int|
                            0 <= v < pre.entries@.len() && pre.entries@[v].address@ == a;
                        assert(self.entries@[v].address@ == a);
                        self.lemma_index_unique(w, v);
                    }
                }
                Ok(())
            },
        }
    }

    /// Rewrites the record at an occupied address in place. The address
    /// stays occupied, the store's size does not change, and every other
    /// address is as it was.
    pub fn replace(&mut self, address: Vec<u8>, record: StoredRecord)
        requires
            old(self).wf(),
            old(self).contains_addr(address@),
            fits_layout(record),
        ensures
            final(self).wf(),
            final(self).contains_addr(address@),
            final(self).record_at(address@) == record,
            final(self).num_entries() == old(self).num_entries(),
            forall|a: Seq<u8>|
                a != address@ ==> final(self).contains_addr(a) == old(self).contains_addr(a),
            forall|a: Seq<u8>|
                a != address@ && old(self).contains_addr(a) ==> final(self).record_at(a)
                    == old(self).record_at(a),
    {
        let ghost pre = *self;
        match self.find_index(&address) {
            Some(i) => {
                self.entries.set(i, StoreEntry { address, record });
                proof {
                    let n = pre.entries@.len() as int;
                    assert(self.entries@.len() == n);
                    assert forall|x: int, y: int|
                        0 <= x < y < self.entries@.len() implies self.entries@[x].address@
                        != self.entries@[y].address@ by {
                        assert(pre.entries@[x].address@ != pre.entries@[y].address@);
                        assert(self.entries@[x].address@ == pre.entries@[x].address@);
                        assert(self.entries@[y].address@ == pre.entries@[y].address@);
                    }
                    assert(self.entries@[i as int].address@ == address@);
                    let c = choose|c: int|
                        0 <= c < self.entries@.len() && self.entries@[c].address@ == address@;
                    self.lemma_index_unique(c, i as int);
                    assert(self.record_at(address@) == record);
                    assert forall|a: Seq<u8>| a != address@ implies self.contains_addr(a)
                        == pre.contains_addr(a) by {
                        if pre.contains_addr(a) {
                            let w = choose|w: int|
                                0 <= w < pre.entries@.len() && pre.entries@[w].address@ == a;
                            assert(w != i as int);
                            assert(self.entries@[w].address@ == a);
                        }
                        if self.contains_addr(a) {
                            let w = choose|w: int|
                                0 <= w < self.entries@.len() && self.entries@[w].address@ == a;
                            assert(w != i as int);
                            assert(pre.entries@[w].address@ == a);
                        }
                    }
                    assert forall|a: Seq<u8>| a != address@ && pre.contains_addr(a) implies
                        self.record_at(a) == pre.record_at(a) by {
                        let w = choose|w: int|
                            0 <= w < self.entries@.len() && self.entries@[w].address@ == a;
                        let v = choose|v: int|
                            0 <= v < pre.entries@.len() && pre.entries@[v].address@ == a;
                        assert(w != i as int);
                        assert(v != i as int);
                        assert(self.entries@[v].address@ == a);
                        self.lemma_index_unique(w, v);
                    }
                }
            },
            None => {
                proof {
                    assert(false);
                }
            },
        }
    }
}

} // verus!
