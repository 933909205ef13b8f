//! Deterministic record addresses.
//!
//! A room's registry record lives at a fixed, well-known address built from
//! the tag `chat_room` and the room identifier. Each message record lives at
//! an address built from the tag `message`, the room identifier and the
//! little-endian encoding of its sequence number. No lookup table exists:
//! anyone holding the room identifier and a sequence number can recompute
//! the address. Within one room the message addresses are injective in the
//! sequence number, and no message address ever equals a registry address —
//! the two facts the optimistic-concurrency protocol rests on.

use vstd::bytes::lemma_auto_spec_u64_to_from_le_bytes;
use vstd::bytes::spec_u64_to_le_bytes;
use vstd::bytes::u64_to_le_bytes;
use vstd::prelude::*;

verus! {

/// The bytes of the tag `chat_room`, prefixed to every registry address.
pub open spec fn room_tag() -> Seq<u8> {
    seq![0x63u8, 0x68u8, 0x61u8, 0x74u8, 0x5fu8, 0x72u8, 0x6fu8, 0x6fu8, 0x6du8]
}

/// The bytes of the tag `message`, prefixed to every message address.
pub open spec fn message_tag() -> Seq<u8> {
    seq![0x6du8, 0x65u8, 0x73u8, 0x73u8, 0x61u8, 0x67u8, 0x65u8]
}

/// The fixed, well-known address of the registry record of the room named
/// by `room_id`.
pub open spec fn spec_room_address(room_id: Seq<u8>) -> Seq<u8> {
    room_tag() + room_id
}

/// The deterministic address of message number `n` of the room named by
/// `room_id`.
pub open spec fn spec_message_address(room_id: Seq<u8>, n: u64) -> Seq<u8> {
    message_tag() + room_id + spec_u64_to_le_bytes(n)
}

/// Appends every byte of `src` to `dst`, in order.
fn append_bytes(dst: &mut Vec<u8>, src: &Vec<u8>)
    ensures
        final(dst)@ == old(dst)@ + src@,
{
    let ghost dst0 = dst@;
    let mut i: usize = 0;
    while i < src.len()
        invariant
            i <= src@.len(),
            dst@ == dst0 + src@.subrange(0, i as int),
        decreases src@.len() - i,
    {
        dst.push(src[i]);
        proof {
            assert(dst@ =~= dst0 + src@.subrange(0, i + 1));
        }
        i = i + 1;
    }
    proof {
        assert(dst@ =~= dst0 + src@);
    }
}

/// Builds the registry address of the room named by `room_id`.
pub fn room_address(room_id: &Vec<u8>) -> (r: Vec<u8>)
    ensures
        r@ == spec_room_address(room_id@),
{
    let mut r: Vec<u8> = Vec::new();
    r.push(0x63);
    r.push(0x68);
    r.push(0x61);
    r.push(0x74);
    r.push(0x5f);
    r.push(0x72);
    r.push(0x6f);
    r.push(0x6f);
    r.push(0x6d);
    proof {
        assert(r@ =~= room_tag());
    }
    append_bytes(&mut r, room_id);
    r
}

/// Builds the address of message number `n` of the room named by `room_id`.
pub fn message_address(room_id: &Vec<u8>, n: u64) -> (r: Vec<u8>)
    ensures
        r@ == spec_message_address(room_id@, n),
{
    let mut r: Vec<u8> = Vec::new();
    r.push(0x6d);
    r.push(0x65);
    r.push(0x73);
    r.push(0x73);
    r.push(0x61);
    r.push(0x67);
    r.push(0x65);
    proof {
        assert(r@ =~= message_tag());
    }
    append_bytes(&mut r, room_id);
    let le = u64_to_le_bytes(n);
    append_bytes(&mut r, &le);
    proof {
        assert(r@ =~= spec_message_address(room_id@, n));
    }
    r
}

/// The little-endian encoding of a counter value determines that value.
pub proof fn lemma_le_bytes_injective(a: u64, b: u64)
    requires
        spec_u64_to_le_bytes(a) == spec_u64_to_le_bytes(b),
    ensures
        a == b,
{
    lemma_auto_spec_u64_to_from_le_bytes();
}

/// Within one room, distinct sequence numbers yield distinct message
/// addresses: a record created for sequence number `m` can never occupy the
/// slot of another sequence number.
pub proof fn lemma_message_address_injective(room_id: Seq<u8>, m: u64, n: u64)
    requires
        spec_message_address(room_id, m) == spec_message_address(room_id, n),
    ensures
        m == n,
{
    lemma_auto_spec_u64_to_from_le_bytes();
    let k = message_tag().len() + room_id.len();
    let lm = spec_u64_to_le_bytes(m);
    let ln = spec_u64_to_le_bytes(n);
    assert forall|i: int| 0 <= i < 8 implies lm[i] == ln[i] by {
        assert(spec_message_address(room_id, m)[k + i] == lm[i]);
        assert(spec_message_address(room_id, n)[k + i] == ln[i]);
    }
    assert(lm =~= ln);
    lemma_le_bytes_injective(m, n);
}

/// Distinct room identifiers yield distinct registry addresses: no two
/// rooms share a registry.
pub proof fn lemma_room_address_injective(rid1: Seq<u8>, rid2: Seq<u8>)
    requires
        spec_room_address(rid1) == spec_room_address(rid2),
    ensures
        rid1 == rid2,
{
    let t = room_tag().len() as int;
    assert(spec_room_address(rid1).len() == t + rid1.len());
    assert(spec_room_address(rid2).len() == t + rid2.len());
    assert forall|i: int| 0 <= i < rid1.len() implies rid1[i] == rid2[i] by {
        assert(spec_room_address(rid1)[t + i] == rid1[i]);
        assert(spec_room_address(rid2)[t + i] == rid2[i]);
    }
    assert(rid1 =~= rid2);
}

/// Message addresses determine both the room and the sequence number: two
/// equal message addresses name one record of one room.
pub proof fn lemma_message_address_determines_room(rid1: Seq<u8>, rid2: Seq<u8>, m: u64, n: u64)
    requires
        spec_message_address(rid1, m) == spec_message_address(rid2, n),
    ensures
        rid1 == rid2,
        m == n,
{
    lemma_auto_spec_u64_to_from_le_bytes();
    let t = message_tag().len() as int;
    assert(spec_u64_to_le_bytes(m).len() == 8);
    assert(spec_u64_to_le_bytes(n).len() == 8);
    assert(spec_message_address(rid1, m).len() == t + rid1.len() + 8);
    assert(spec_message_address(rid2, n).len() == t + rid2.len() + 8);
    assert(rid1.len() == rid2.len());
    assert forall|i: int| 0 <= i < rid1.len() implies rid1[i] == rid2[i] by {
        assert(spec_message_address(rid1, m)[t + i] == rid1[i]);
        assert(spec_message_address(rid2, n)[t + i] == rid2[i]);
    }
    assert(rid1 =~= rid2);
    lemma_message_address_injective(rid1, m, n);
}

/// A registry address never equals a message address, whatever the rooms and
/// the sequence number: the two tags differ in their first byte.
pub proof fn lemma_room_message_addresses_differ(rid1: Seq<u8>, rid2: Seq<u8>, n: u64)
    ensures
        spec_room_address(rid1) != spec_message_address(rid2, n),
{
    assert(spec_room_address(rid1)[0] == 0x63u8);
    assert(spec_message_address(rid2, n)[0] == 0x6du8);
}

} // verus!
