//! The guarantees of the sequencing protocol, proved once and for all over
//! the transition relations that [`crate::sequencer`]'s operations ensure.
//!
//! A *trace* here is a serialized run of send attempts on one room: a
//! sequence of store states with one attempt, of any parameters, between
//! each adjacent pair. The laws say that initialization hands out sequence
//! numbers from zero; that successful attempts return strictly increasing —
//! hence unique — sequence numbers; that the counter counts exactly the
//! successes; that a second initialization fails and changes nothing; that
//! oversized content is rejected and changes nothing; and that of two
//! attempts built from the same counter observation exactly the first
//! succeeds.

use crate::addressing::lemma_message_address_determines_room;
use crate::addressing::lemma_room_address_injective;
use crate::addressing::lemma_room_message_addresses_differ;
use crate::addressing::spec_message_address;
use crate::addressing::spec_room_address;
use crate::records::ChatError;
use crate::records::SenderCredential;
use crate::records::UserKey;
use crate::records::MAX_CONTENT_LEN;
use crate::sequencer::initialize_transition;
use crate::sequencer::message_at;
use crate::sequencer::room_consistent;
use crate::sequencer::room_count;
use crate::sequencer::room_initialized;
use crate::sequencer::send_transition;
use crate::store::RecordStore;
use crate::store::StoredRecord;
use vstd::prelude::*;

verus! {

/// Some send attempt, of whatever parameters, took the store from `pre` to
/// `post` in the room named by `room_id` and returned `r`.
pub open spec fn send_step(
    pre: RecordStore,
    post: RecordStore,
    room_id: Seq<u8>,
    r: Result<u64, ChatError>,
) -> bool {
    exists|
        sender: SenderCredential,
        recipient: UserKey,
        content: Seq<u8>,
        timestamp: i64,
        observed: u64,
    |
        send_transition(pre, post, room_id, sender, recipient, content, timestamp, observed, r)
}

/// A serialized run of send attempts on one room: `results[i]` is what the
/// attempt that took the store from `states[i]` to `states[i + 1]`
/// returned.
pub open spec fn send_trace(
    states: Seq<RecordStore>,
    results: Seq<Result<u64, ChatError>>,
    room_id: Seq<u8>,
) -> bool {
    &&& states.len() == results.len() + 1
    &&& forall|i: int|
        0 <= i < results.len() ==> send_step(states[i], states[i + 1], room_id, #[trigger] results[i])
}

/// How many attempts of a run succeeded.
pub open spec fn count_successes(results: Seq<Result<u64, ChatError>>) -> nat
    decreases results.len(),
{
    if results.len() == 0 {
        0
    } else {
        count_successes(results.drop_last()) + if results.last() is Ok {
            1nat
        } else {
            0nat
        }
    }
}

/// A successful send attempt returns the counter of its pre-state and
/// advances the counter to one past it; a failed one changes nothing.
pub proof fn lemma_send_step_counter(
    pre: RecordStore,
    post: RecordStore,
    room_id: Seq<u8>,
    r: Result<u64, ChatError>,
)
    requires
        send_step(pre, post, room_id, r),
        room_initialized(pre, room_id),
    ensures
        room_initialized(post, room_id),
        r matches Ok(v) ==> v == room_count(pre, room_id) && room_count(post, room_id) == v + 1,
        r is Err ==> post == pre,
{
    let (sender, recipient, content, timestamp, observed) = choose|
        sender: SenderCredential,
        recipient: UserKey,
        content: Seq<u8>,
        timestamp: i64,
        observed: u64,
    | send_transition(pre, post, room_id, sender, recipient, content, timestamp, observed, r);
    if sender.signature_valid && content.len() <= MAX_CONTENT_LEN && observed == room_count(
        pre,
        room_id,
    ) {
        assert(r == Ok::<u64, ChatError>(observed));
    } else {
        assert(r is Err && post == pre);
    }
}

/// Once a room is initialized at the start of a run, it stays initialized
/// through every attempt of the run.
pub proof fn lemma_trace_initialized(
    states: Seq<RecordStore>,
    results: Seq<Result<u64, ChatError>>,
    room_id: Seq<u8>,
    k: int,
)
    requires
        send_trace(states, results, room_id),
        room_initialized(states[0], room_id),
        0 <= k < states.len(),
    ensures
        room_initialized(states[k], room_id),
    decreases k,
{
    if k > 0 {
        lemma_trace_initialized(states, results, room_id, k - 1);
        assert(send_step(states[k - 1], states[k], room_id, results[k - 1]));
        lemma_send_step_counter(states[k - 1], states[k], room_id, results[k - 1]);
    }
}

/// The counter never decreases along a run.
pub proof fn lemma_trace_counter_monotonic(
    states: Seq<RecordStore>,
    results: Seq<Result<u64, ChatError>>,
    room_id: Seq<u8>,
    i: int,
    j: int,
)
    requires
        send_trace(states, results, room_id),
        room_initialized(states[0], room_id),
        0 <= i <= j < states.len(),
    ensures
        room_count(states[j], room_id) >= room_count(states[i], room_id),
    decreases j - i,
{
    if i < j {
        lemma_trace_counter_monotonic(states, results, room_id, i, j - 1);
        lemma_trace_initialized(states, results, room_id, j - 1);
        assert(send_step(states[j - 1], states[j], room_id, results[j - 1]));
        lemma_send_step_counter(states[j - 1], states[j], room_id, results[j - 1]);
    }
}

/// Uniqueness of assigned sequence numbers: along any serialized run on one
/// room, an earlier successful attempt returns a strictly smaller sequence
/// number than a later one — so no two successes ever share a number.
pub proof fn lemma_sequence_numbers_unique(
    states: Seq<RecordStore>,
    results: Seq<Result<u64, ChatError>>,
    room_id: Seq<u8>,
    i: int,
    j: int,
    a: u64,
    b: u64,
)
    requires
        send_trace(states, results, room_id),
        room_initialized(states[0], room_id),
        0 <= i < j < results.len(),
        results[i] == Ok::<u64, ChatError>(a),
        results[j] == Ok::<u64, ChatError>(b),
    ensures
        a < b,
{
    lemma_trace_initialized(states, results, room_id, i);
    lemma_trace_initialized(states, results, room_id, j);
    assert(send_step(states[i], states[i + 1], room_id, results[i]));
    assert(send_step(states[j], states[j + 1], room_id, results[j]));
    lemma_send_step_counter(states[i], states[i + 1], room_id, results[i]);
    lemma_send_step_counter(states[j], states[j + 1], room_id, results[j]);
    lemma_trace_counter_monotonic(states, results, room_id, i + 1, j);
}

/// The successful attempts of a run are counted exactly by the room's
/// counter: it ends at its starting value plus the number of successes.
/// Started from a freshly initialized room, the counter therefore equals
/// the number of messages ever accepted.
pub proof fn lemma_counter_counts_successes(
    states: Seq<RecordStore>,
    results: Seq<Result<u64, ChatError>>,
    room_id: Seq<u8>,
)
    requires
        send_trace(states, results, room_id),
        room_initialized(states[0], room_id),
    ensures
        room_count(states.last(), room_id) == room_count(states[0], room_id) + count_successes(
            results,
        ),
    decreases results.len(),
{
    let k = results.len() as int;
    if k > 0 {
        let states2 = states.drop_last();
        let results2 = results.drop_last();
        assert forall|i: int| 0 <= i < results2.len() implies send_step(
            states2[i],
            states2[i + 1],
            room_id,
            #[trigger] results2[i],
        ) by {
            assert(send_step(states[i], states[i + 1], room_id, results[i]));
        }
        lemma_counter_counts_successes(states2, results2, room_id);
        lemma_trace_initialized(states, results, room_id, k - 1);
        assert(send_step(states[k - 1], states[k], room_id, results[k - 1]));
        lemma_send_step_counter(states[k - 1], states[k], room_id, results[k - 1]);
        assert(states2.last() == states[k - 1]);
        assert(states.last() == states[k]);
    }
}

/// Each success is assigned the next free number: a successful attempt
/// returns the starting counter plus the number of successes strictly
/// before it. Started from a freshly initialized room — counter zero — the
/// successes are therefore assigned exactly `0, 1, 2, …`, in order: the
/// set of returned sequence numbers is `{0, …, message_count - 1}`.
pub proof fn lemma_success_returns_prior_successes(
    states: Seq<RecordStore>,
    results: Seq<Result<u64, ChatError>>,
    room_id: Seq<u8>,
    j: int,
    v: u64,
)
    requires
        send_trace(states, results, room_id),
        room_initialized(states[0], room_id),
        0 <= j < results.len(),
        results[j] == Ok::<u64, ChatError>(v),
    ensures
        v == room_count(states[0], room_id) + count_successes(results.take(j)),
{
    let prefix_states = states.take(j + 1);
    let prefix_results = results.take(j);
    assert forall|i: int| 0 <= i < prefix_results.len() implies send_step(
        prefix_states[i],
        prefix_states[i + 1],
        room_id,
        #[trigger] prefix_results[i],
    ) by {
        assert(send_step(states[i], states[i + 1], room_id, results[i]));
    }
    lemma_counter_counts_successes(prefix_states, prefix_results, room_id);
    assert(prefix_states.last() == states[j]);
    assert(prefix_states[0] == states[0]);
    lemma_trace_initialized(states, results, room_id, j);
    assert(send_step(states[j], states[j + 1], room_id, results[j]));
    lemma_send_step_counter(states[j], states[j + 1], room_id, results[j]);
}

/// The records of an initialized, consistent room occupy exactly the
/// addresses derived from the sequence numbers `0 .. message_count`, and
/// the record at the address derived from `n` is a message carrying
/// sequence number `n`: the recorded sequence numbers are exactly
/// `{0, 1, …, message_count - 1}`, without duplicates.
pub proof fn lemma_records_cover_counter(s: RecordStore, room_id: Seq<u8>)
    requires
        s.wf(),
        room_consistent(s, room_id),
        room_initialized(s, room_id),
    ensures
        forall|n: u64|
            (#[trigger] s.contains_addr(spec_message_address(room_id, n))) <==> n < room_count(
                s,
                room_id,
            ),
        forall|n: u64|
            n < room_count(s, room_id) ==> ((#[trigger] message_at(s, room_id, n)) matches
            StoredRecord::Message(m) && m.message_id == n),
{
}

/// After an initialization of a fresh room, the first send attempt with an
/// attested signature and fitting content — its observation read from the
/// just-created registry — is assigned sequence number 0, and the next one
/// sequence number 1.
pub proof fn lemma_initialize_then_send(
    s0: RecordStore,
    s1: RecordStore,
    s2: RecordStore,
    s3: RecordStore,
    room_id: Seq<u8>,
    r0: Result<(), ChatError>,
    cred1: SenderCredential,
    recipient1: UserKey,
    content1: Seq<u8>,
    timestamp1: i64,
    r1: Result<u64, ChatError>,
    cred2: SenderCredential,
    recipient2: UserKey,
    content2: Seq<u8>,
    timestamp2: i64,
    r2: Result<u64, ChatError>,
)
    requires
        !room_initialized(s0, room_id),
        initialize_transition(s0, s1, room_id, r0),
        cred1.signature_valid,
        content1.len() <= MAX_CONTENT_LEN,
        send_transition(
            s1,
            s2,
            room_id,
            cred1,
            recipient1,
            content1,
            timestamp1,
            room_count(s1, room_id),
            r1,
        ),
        cred2.signature_valid,
        content2.len() <= MAX_CONTENT_LEN,
        send_transition(
            s2,
            s3,
            room_id,
            cred2,
            recipient2,
            content2,
            timestamp2,
            room_count(s2, room_id),
            r2,
        ),
    ensures
        r0 == Ok::<(), ChatError>(()),
        r1 == Ok::<u64, ChatError>(0),
        r2 == Ok::<u64, ChatError>(1),
        room_count(s3, room_id) == 2,
{
}

/// Initializing a room twice fails the second time with
/// `AlreadyInitialized` and leaves the store — in particular the counter —
/// unchanged.
pub proof fn lemma_double_initialize_fails(
    s0: RecordStore,
    s1: RecordStore,
    s2: RecordStore,
    room_id: Seq<u8>,
    r1: Result<(), ChatError>,
    r2: Result<(), ChatError>,
)
    requires
        !room_initialized(s0, room_id),
        initialize_transition(s0, s1, room_id, r1),
        initialize_transition(s1, s2, room_id, r2),
    ensures
        r1 == Ok::<(), ChatError>(()),
        r2 == Err::<(), ChatError>(ChatError::AlreadyInitialized),
        s2 == s1,
        room_count(s2, room_id) == 0,
{
}

/// A send attempt whose content exceeds the layout bound fails with
/// `ContentTooLarge` and leaves the counter and the record set unchanged.
pub proof fn lemma_oversized_content_rejected(
    pre: RecordStore,
    post: RecordStore,
    room_id: Seq<u8>,
    sender: SenderCredential,
    recipient: UserKey,
    content: Seq<u8>,
    timestamp: i64,
    observed: u64,
    r: Result<u64, ChatError>,
)
    requires
        send_transition(pre, post, room_id, sender, recipient, content, timestamp, observed, r),
        sender.signature_valid,
        room_initialized(pre, room_id),
        content.len() > MAX_CONTENT_LEN,
    ensures
        r == Err::<u64, ChatError>(ChatError::ContentTooLarge),
        post == pre,
{
}

/// The race: two send attempts built from the same counter observation
/// `k`, both attested and fitting, submitted one after the other. The
/// first is assigned sequence number `k`; the second finds the address for
/// `k` occupied, fails with `AddressCollision`, and changes nothing; the
/// counter ends at `k + 1`.
pub proof fn lemma_race_one_winner(
    s0: RecordStore,
    s1: RecordStore,
    s2: RecordStore,
    room_id: Seq<u8>,
    k: u64,
    cred1: SenderCredential,
    recipient1: UserKey,
    content1: Seq<u8>,
    timestamp1: i64,
    r1: Result<u64, ChatError>,
    cred2: SenderCredential,
    recipient2: UserKey,
    content2: Seq<u8>,
    timestamp2: i64,
    r2: Result<u64, ChatError>,
)
    requires
        room_initialized(s0, room_id),
        room_count(s0, room_id) == k,
        cred1.signature_valid,
        content1.len() <= MAX_CONTENT_LEN,
        cred2.signature_valid,
        content2.len() <= MAX_CONTENT_LEN,
        send_transition(s0, s1, room_id, cred1, recipient1, content1, timestamp1, k, r1),
        send_transition(s1, s2, room_id, cred2, recipient2, content2, timestamp2, k, r2),
    ensures
        r1 == Ok::<u64, ChatError>(k),
        r2 == Err::<u64, ChatError>(ChatError::AddressCollision),
        s2 == s1,
        room_count(s2, room_id) == k + 1,
{
}

/// Room isolation, for initialization: initializing one room leaves every
/// other room exactly as it was — its registry, its counter and its
/// records.
pub proof fn lemma_initialize_isolates_rooms(
    pre: RecordStore,
    post: RecordStore,
    room_id: Seq<u8>,
    r: Result<(), ChatError>,
    other: Seq<u8>,
)
    requires
        initialize_transition(pre, post, room_id, r),
        other != room_id,
        room_consistent(pre, other),
    ensures
        room_consistent(post, other),
        room_initialized(post, other) == room_initialized(pre, other),
        room_initialized(pre, other) ==> room_count(post, other) == room_count(pre, other),
        forall|n: u64|
            (#[trigger] post.contains_addr(spec_message_address(other, n))) == pre.contains_addr(
                spec_message_address(other, n),
            ),
{
    if spec_room_address(other) == spec_room_address(room_id) {
        lemma_room_address_injective(other, room_id);
    }
    if room_initialized(pre, room_id) {
        assert(post == pre);
    } else {
        assert(post.contains_addr(spec_room_address(other)) == pre.contains_addr(
            spec_room_address(other),
        ));
        if pre.contains_addr(spec_room_address(other)) {
            assert(post.record_at(spec_room_address(other)) == pre.record_at(
                spec_room_address(other),
            ));
        }
        assert forall|n: u64|
            (#[trigger] post.contains_addr(spec_message_address(other, n))) == pre.contains_addr(
                spec_message_address(other, n),
            ) && (pre.contains_addr(spec_message_address(other, n)) ==> post.record_at(
                spec_message_address(other, n),
            ) == pre.record_at(spec_message_address(other, n))) by {
            lemma_room_message_addresses_differ(room_id, other, n);
        }
        assert forall|n: u64|
            room_initialized(post, other) && n < room_count(post, other) implies (
        #[trigger] message_at(post, other, n)) == message_at(pre, other, n) by {
            lemma_room_message_addresses_differ(room_id, other, n);
            assert(pre.contains_addr(spec_message_address(other, n)));
        }
        assert(room_consistent(post, other));
    }
}

/// Room isolation, for sends: a send attempt on one room, whatever its
/// outcome, leaves every other room exactly as it was — its registry, its
/// counter and its records.
pub proof fn lemma_send_isolates_rooms(
    pre: RecordStore,
    post: RecordStore,
    room_id: Seq<u8>,
    sender: SenderCredential,
    recipient: UserKey,
    content: Seq<u8>,
    timestamp: i64,
    observed: u64,
    r: Result<u64, ChatError>,
    other: Seq<u8>,
)
    requires
        send_transition(pre, post, room_id, sender, recipient, content, timestamp, observed, r),
        other != room_id,
        room_consistent(pre, other),
    ensures
        room_consistent(post, other),
        room_initialized(post, other) == room_initialized(pre, other),
        room_initialized(pre, other) ==> room_count(post, other) == room_count(pre, other),
        forall|n: u64|
            (#[trigger] post.contains_addr(spec_message_address(other, n))) == pre.contains_addr(
                spec_message_address(other, n),
            ),
{
    if spec_room_address(other) == spec_room_address(room_id) {
        lemma_room_address_injective(other, room_id);
    }
    lemma_room_message_addresses_differ(other, room_id, observed);
    if sender.signature_valid && room_initialized(pre, room_id) && content.len()
        <= MAX_CONTENT_LEN && observed == room_count(pre, room_id) {
        assert(post.contains_addr(spec_room_address(other)) == pre.contains_addr(
            spec_room_address(other),
        ));
        if pre.contains_addr(spec_room_address(other)) {
            assert(post.record_at(spec_room_address(other)) == pre.record_at(
                spec_room_address(other),
            ));
        }
        assert forall|n: u64|
            (#[trigger] post.contains_addr(spec_message_address(other, n))) == pre.contains_addr(
                spec_message_address(other, n),
            ) && (pre.contains_addr(spec_message_address(other, n)) ==> post.record_at(
                spec_message_address(other, n),
            ) == pre.record_at(spec_message_address(other, n))) by {
            lemma_room_message_addresses_differ(room_id, other, n);
            if spec_message_address(other, n) == spec_message_address(room_id, observed) {
                lemma_message_address_determines_room(other, room_id, n, observed);
            }
        }
        assert forall|n: u64|
            room_initialized(post, other) && n < room_count(post, other) implies (
        #[trigger] message_at(post, other, n)) == message_at(pre, other, n) by {
            lemma_room_message_addresses_differ(room_id, other, n);
            if spec_message_address(other, n) == spec_message_address(room_id, observed) {
                lemma_message_address_determines_room(other, room_id, n, observed);
            }
            assert(pre.contains_addr(spec_message_address(other, n)));
        }
        assert(room_consistent(post, other));
    } else {
        assert(post == pre);
    }
}

} // verus!
