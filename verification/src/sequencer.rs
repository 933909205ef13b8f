//! The message sequencer: room initialization and the send protocol.
//!
//! A send reads the room's counter, derives the next message address from
//! the observed value, asks the store to create the record there, and only
//! then advances the counter to one past the observed value. The store's
//! create-once guarantee arbitrates between senders that observed the same
//! counter value: exactly one claims the address, every other one fails with
//! [`ChatError::AddressCollision`] and is expected to re-read the counter
//! and resubmit. A failed action changes nothing.
//!
//! [`room_consistent`] is the invariant tying the counter to the records:
//! the addresses derived from sequence numbers `0, 1, …, message_count - 1`
//! are exactly the occupied message addresses of the room, and the record at
//! the address derived from `n` carries sequence number `n`.

use crate::addressing::lemma_message_address_injective;
use crate::addressing::lemma_room_message_addresses_differ;
use crate::addressing::message_address;
use crate::addressing::room_address;
use crate::addressing::spec_message_address;
use crate::addressing::spec_room_address;
use crate::records::ChatError;
use crate::records::ChatRoom;
use crate::records::Message;
use crate::records::SenderCredential;
use crate::records::UserKey;
use crate::records::MAX_CONTENT_LEN;
use crate::store::RecordStore;
use crate::store::StoreError;
use crate::store::StoredRecord;
use vstd::prelude::*;

verus! {

/// Whether the room named by `room_id` has been initialized in `s`: its
/// registry record exists at the room's fixed address.
pub open spec fn room_initialized(s: RecordStore, room_id: Seq<u8>) -> bool {
    s.contains_addr(spec_room_address(room_id))
}

/// The room's message counter; meaningful only when the room is
/// initialized.
pub open spec fn room_count(s: RecordStore, room_id: Seq<u8>) -> u64 {
    match s.record_at(spec_room_address(room_id)) {
        StoredRecord::Room(c) => c.message_count,
        StoredRecord::Message(_) => 0,
    }
}

/// The record at the address derived for message number `n` of the room;
/// meaningful only when that address is occupied.
pub open spec fn message_at(s: RecordStore, room_id: Seq<u8>, n: u64) -> StoredRecord {
    s.record_at(spec_message_address(room_id, n))
}

/// The invariant of one room inside the store.
///
/// The room's fixed address, when occupied, holds a registry record. Once
/// the room is initialized, the occupied message addresses are exactly the
/// ones derived from the sequence numbers below the counter, the record at
/// the address derived from `n` is a message carrying sequence number `n`
/// within the layout bound, and the registry and the counted messages
/// occupy distinct store entries — so the store holds strictly more entries
/// than the counter's value. Before initialization the room has no message
/// records at all.
pub open spec fn room_consistent(s: RecordStore, room_id: Seq<u8>) -> bool {
    &&& s.contains_addr(spec_room_address(room_id)) ==> s.record_at(spec_room_address(room_id))
        is Room
    &&& room_initialized(s, room_id) ==> {
        &&& forall|n: u64|
            (#[trigger] s.contains_addr(spec_message_address(room_id, n))) <==> n < room_count(
                s,
                room_id,
            )
        &&& forall|n: u64|
            n < room_count(s, room_id) ==> {
                &&& (#[trigger] message_at(s, room_id, n)) matches StoredRecord::Message(m)
                &&& message_at(s, room_id, n)->Message_0.message_id == n
                &&& message_at(s, room_id, n)->Message_0.encrypted_content@.len()
                    <= MAX_CONTENT_LEN
            }
        &&& room_count(s, room_id) + 1 <= s.num_entries()
    }
    &&& !room_initialized(s, room_id) ==> forall|n: u64|
        !(#[trigger] s.contains_addr(spec_message_address(room_id, n)))
}

/// Everything `initialize` does, as a relation between the store before and
/// after the call. On a room that is already initialized it fails with
/// [`ChatError::AlreadyInitialized`] and changes nothing; otherwise it
/// creates the registry record with a counter of zero and touches no other
/// address.
pub open spec fn initialize_transition(
    pre: RecordStore,
    post: RecordStore,
    room_id: Seq<u8>,
    r: Result<(), ChatError>,
) -> bool {
    &&& pre.wf()
    &&& room_consistent(pre, room_id)
    &&& post.wf()
    &&& room_consistent(post, room_id)
    &&& room_initialized(pre, room_id) ==> r == Err::<(), ChatError>(ChatError::AlreadyInitialized)
        && post == pre
    &&& !room_initialized(pre, room_id) ==> {
        &&& r == Ok::<(), ChatError>(())
        &&& room_initialized(post, room_id)
        &&& room_count(post, room_id) == 0
        &&& post.num_entries() == pre.num_entries() + 1
        &&& forall|a: Seq<u8>|
            a != spec_room_address(room_id) ==> post.contains_addr(a) == pre.contains_addr(a)
        &&& forall|a: Seq<u8>|
            a != spec_room_address(room_id) && pre.contains_addr(a) ==> post.record_at(a)
                == pre.record_at(a)
    }
}

/// Everything a send attempt built from the counter observation `observed`
/// does, as a relation between the store before and after the call.
///
/// The failure modes come in a fixed order: an unattested signature, then a
/// missing registry, then oversized content, then an occupied address — the
/// race lost to whichever sender claimed the address for `observed` first.
/// When none applies, the observation was current: the message record is
/// created at the derived address with the observed value as its sequence
/// number, the counter advances to one past it, no other address changes,
/// and the observed value is returned.
pub open spec fn send_transition(
    pre: RecordStore,
    post: RecordStore,
    room_id: Seq<u8>,
    sender: SenderCredential,
    recipient: UserKey,
    content: Seq<u8>,
    timestamp: i64,
    observed: u64,
    r: Result<u64, ChatError>,
) -> bool {
    &&& pre.wf()
    &&& room_consistent(pre, room_id)
    &&& room_initialized(pre, room_id) ==> observed <= room_count(pre, room_id)
    &&& post.wf()
    &&& room_consistent(post, room_id)
    &&& !sender.signature_valid ==> r == Err::<u64, ChatError>(ChatError::InvalidSignature) && post
        == pre
    &&& sender.signature_valid && !room_initialized(pre, room_id) ==> r == Err::<u64, ChatError>(
        ChatError::RoomNotInitialized,
    ) && post == pre
    &&& sender.signature_valid && room_initialized(pre, room_id) && content.len()
        > MAX_CONTENT_LEN ==> r == Err::<u64, ChatError>(ChatError::ContentTooLarge) && post == pre
    &&& sender.signature_valid && room_initialized(pre, room_id) && content.len()
        <= MAX_CONTENT_LEN && observed < room_count(pre, room_id) ==> r == Err::<u64, ChatError>(
        ChatError::AddressCollision,
    ) && post == pre
    &&& sender.signature_valid && room_initialized(pre, room_id) && content.len()
        <= MAX_CONTENT_LEN && observed == room_count(pre, room_id) ==> {
        &&& r == Ok::<u64, ChatError>(observed)
        &&& room_initialized(post, room_id)
        &&& room_count(post, room_id) == observed + 1
        &&& post.contains_addr(spec_message_address(room_id, observed))
        &&& message_at(post, room_id, observed) matches StoredRecord::Message(m) && m.sender
            == sender.signer && m.recipient == recipient && m.encrypted_content@ == content
            && m.timestamp == timestamp && m.message_id == observed
        &&& post.num_entries() == pre.num_entries() + 1
        &&& forall|a: Seq<u8>|
            a != spec_room_address(room_id) && a != spec_message_address(room_id, observed)
                ==> post.contains_addr(a) == pre.contains_addr(a)
        &&& forall|a: Seq<u8>|
            a != spec_room_address(room_id) && a != spec_message_address(room_id, observed)
                && pre.contains_addr(a) ==> post.record_at(a) == pre.record_at(a)
    }
}

/// Creates the room's registry record at its fixed, well-known address with
/// a message counter of zero. Fails with [`ChatError::AlreadyInitialized`],
/// changing nothing, when the registry already exists.
pub fn initialize(store: &mut RecordStore, room_id: &Vec<u8>) -> (r: Result<(), ChatError>)
    requires
        old(store).wf(),
        room_consistent(*old(store), room_id@),
    ensures
        final(store).wf(),
        room_consistent(*final(store), room_id@),
        initialize_transition(*old(store), *final(store), room_id@, r),
{
    let addr = room_address(room_id);
    match store.create(addr, StoredRecord::Room(ChatRoom { message_count: 0 })) {
        Ok(()) => {
            proof {
                assert forall|n: u64| !(#[trigger] store.contains_addr(
                    spec_message_address(room_id@, n),
                )) by {
                    lemma_room_message_addresses_differ(room_id@, room_id@, n);
                }
                assert(room_count(*store, room_id@) == 0);
            }
            Ok(())
        },
        Err(_) => {
            proof {
                assert(old(store).contains_addr(spec_room_address(room_id@)));
            }
            Err(ChatError::AlreadyInitialized)
        },
    }
}

/// One send attempt built from the counter observation `observed_count`,
/// which must come from a read of the room's counter — it is at most the
/// counter's current value. The attempt succeeds exactly when the sender's
/// signature is attested, the content fits a message record, and the
/// observation is still current; the one failure a caller may cure by
/// retrying is [`ChatError::AddressCollision`], after re-reading the
/// counter.
pub fn send_message_at(
    store: &mut RecordStore,
    room_id: &Vec<u8>,
    observed_count: u64,
    sender: &SenderCredential,
    recipient: UserKey,
    encrypted_message: Vec<u8>,
    timestamp: i64,
) -> (r: Result<u64, ChatError>)
    requires
        old(store).wf(),
        room_consistent(*old(store), room_id@),
        room_initialized(*old(store), room_id@) ==> observed_count <= room_count(
            *old(store),
            room_id@,
        ),
    ensures
        final(store).wf(),
        room_consistent(*final(store), room_id@),
        send_transition(
            *old(store),
            *final(store),
            room_id@,
            *sender,
            recipient,
            encrypted_message@,
            timestamp,
            observed_count,
            r,
        ),
{
    if !sender.signature_valid {
        return Err(ChatError::InvalidSignature);
    }
    let room_addr = room_address(room_id);
    match store.read(&room_addr) {
        None => {
            return Err(ChatError::RoomNotInitialized);
        },
        Some(_) => {},
    }
    let msg_addr = message_address(room_id, observed_count);
    let record = StoredRecord::Message(
        Message {
            sender: sender.signer,
            recipient,
            encrypted_content: encrypted_message,
            timestamp,
            message_id: observed_count,
        },
    );
    let ghost pre = *old(store);
    match store.create(msg_addr, record) {
        Err(StoreError::RecordTooLarge) => Err(ChatError::ContentTooLarge),
        Err(StoreError::AddressOccupied) => {
            proof {
                assert(observed_count < room_count(pre, room_id@));
            }
            Err(ChatError::AddressCollision)
        },
        Ok(()) => {
            let ghost mid = *store;
            proof {
                // The address for `observed_count` was free, so the
                // observation was current.
                assert(observed_count == room_count(pre, room_id@));
                // The registry and the counted messages occupy distinct
                // entries of a store that fits in memory, so the counter
                // can advance without overflowing.
                assert(room_count(pre, room_id@) + 2 <= mid.num_entries());
                assert(mid.num_entries() <= usize::MAX);
                assert(observed_count + 1 <= u64::MAX);
                lemma_room_message_addresses_differ(room_id@, room_id@, observed_count);
            }
            let new_count = observed_count + 1;
            let registry_addr = room_address(room_id);
            store.replace(registry_addr, StoredRecord::Room(ChatRoom { message_count: new_count }));
            proof {
                lemma_room_message_addresses_differ(room_id@, room_id@, observed_count);
                assert(room_count(*store, room_id@) == new_count);
                assert forall|n: u64| n != observed_count implies spec_message_address(room_id@, n)
                    != spec_message_address(room_id@, observed_count) by {
                    if spec_message_address(room_id@, n) == spec_message_address(
                        room_id@,
                        observed_count,
                    ) {
                        lemma_message_address_injective(room_id@, n, observed_count);
                    }
                }
                assert forall|n: u64| #[trigger] store.contains_addr(
                    spec_message_address(room_id@, n),
                ) <==> n < room_count(*store, room_id@) by {
                    lemma_room_message_addresses_differ(room_id@, room_id@, n);
                    if n != observed_count {
                        assert(store.contains_addr(spec_message_address(room_id@, n))
                            == pre.contains_addr(spec_message_address(room_id@, n)));
                    }
                }
                assert forall|n: u64| n < room_count(*store, room_id@) implies {
                    &&& (#[trigger] message_at(*store, room_id@, n)) matches StoredRecord::Message(
                        m,
                    )
                    &&& message_at(*store, room_id@, n)->Message_0.message_id == n
                    &&& message_at(*store, room_id@, n)->Message_0.encrypted_content@.len()
                        <= MAX_CONTENT_LEN
                } by {
                    lemma_room_message_addresses_differ(room_id@, room_id@, n);
                    if n != observed_count {
                        assert(message_at(*store, room_id@, n) == message_at(pre, room_id@, n));
                    }
                }
                assert(room_consistent(*store, room_id@));
            }
            Ok(observed_count)
        },
    }
}

/// Sends a message: reads the room's current counter and attempts the send
/// with that fresh observation. Succeeds, returning the assigned sequence
/// number, exactly when the sender's signature is attested, the room is
/// initialized and the content fits a message record; a fresh observation
/// never loses the address race.
pub fn send_message(
    store: &mut RecordStore,
    room_id: &Vec<u8>,
    sender: &SenderCredential,
    recipient: UserKey,
    encrypted_message: Vec<u8>,
    timestamp: i64,
) -> (r: Result<u64, ChatError>)
    requires
        old(store).wf(),
        room_consistent(*old(store), room_id@),
    ensures
        final(store).wf(),
        room_consistent(*final(store), room_id@),
        send_transition(
            *old(store),
            *final(store),
            room_id@,
            *sender,
            recipient,
            encrypted_message@,
            timestamp,
            room_count(*old(store), room_id@),
            r,
        ),
{
    if !sender.signature_valid {
        return Err(ChatError::InvalidSignature);
    }
    let room_addr = room_address(room_id);
    let observed = match store.read(&room_addr) {
        None => {
            return Err(ChatError::RoomNotInitialized);
        },
        Some(rec) => match rec {
            StoredRecord::Room(c) => c.message_count,
            StoredRecord::Message(_) => {
                proof {
                    assert(false);
                }
                0u64
            },
        },
    };
    send_message_at(store, room_id, observed, sender, recipient, encrypted_message, timestamp)
}

/// The stub query surface: accepts a user identifier, reads nothing, and
/// succeeds unconditionally. Clients that want a real listing enumerate the
/// addresses below the room's counter themselves and filter by sender or
/// recipient. The asymmetry is a deliberate scope boundary, not an
/// oversight.
pub fn get_messages_for_user(user: &UserKey) -> (r: Result<(), ChatError>)
    ensures
        r is Ok,
{
    let _ = user;
    Ok(())
}

/// Reads the room's message counter, or nothing when the room has not been
/// initialized.
pub fn room_message_count(store: &RecordStore, room_id: &Vec<u8>) -> (r: Option<u64>)
    requires
        store.wf(),
        room_consistent(*store, room_id@),
    ensures
        match r {
            Some(c) => room_initialized(*store, room_id@) && c == room_count(*store, room_id@),
            None => !room_initialized(*store, room_id@),
        },
{
    let room_addr = room_address(room_id);
    match store.read(&room_addr) {
        None => None,
        Some(rec) => match rec {
            StoredRecord::Room(c) => Some(c.message_count),
            StoredRecord::Message(_) => {
                proof {
                    assert(false);
                }
                None
            },
        },
    }
}

} // verus!
