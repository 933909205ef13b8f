use chat_ledger::addressing::message_address;
use chat_ledger::records::ChatError;
use chat_ledger::records::SenderCredential;
use chat_ledger::records::UserKey;
use chat_ledger::records::MAX_CONTENT_LEN;
use chat_ledger::sequencer::get_messages_for_user;
use chat_ledger::sequencer::initialize;
use chat_ledger::sequencer::room_message_count;
use chat_ledger::sequencer::send_message;
use chat_ledger::sequencer::send_message_at;
use chat_ledger::store::RecordStore;
use chat_ledger::store::StoredRecord;

fn room_id() -> Vec<u8> {
    b"lobby".to_vec()
}

fn user(tag: u8) -> UserKey {
    UserKey { bytes: [tag; 32] }
}

fn valid_cred(tag: u8) -> SenderCredential {
    SenderCredential { signer: user(tag), signature_valid: true }
}

#[test]
fn initialize_then_send() {
    let mut store = RecordStore::new();
    let room = room_id();
    assert_eq!(initialize(&mut store, &room), Ok(()));
    assert_eq!(room_message_count(&store, &room), Some(0));
    let r1 = send_message(&mut store, &room, &valid_cred(1), user(2), vec![10u8, 20u8], 100);
    assert_eq!(r1, Ok(0));
    let r2 = send_message(&mut store, &room, &valid_cred(1), user(2), vec![30u8], 101);
    assert_eq!(r2, Ok(1));
    assert_eq!(room_message_count(&store, &room), Some(2));
}

#[test]
fn double_initialize_fails() {
    let mut store = RecordStore::new();
    let room = room_id();
    assert_eq!(initialize(&mut store, &room), Ok(()));
    assert_eq!(initialize(&mut store, &room), Err(ChatError::AlreadyInitialized));
    assert_eq!(room_message_count(&store, &room), Some(0));
}

#[test]
fn send_without_initialize_fails() {
    let mut store = RecordStore::new();
    let room = room_id();
    let r = send_message(&mut store, &room, &valid_cred(1), user(2), vec![1u8], 5);
    assert_eq!(r, Err(ChatError::RoomNotInitialized));
    assert_eq!(room_message_count(&store, &room), None);
}

#[test]
fn invalid_signature_rejected() {
    let mut store = RecordStore::new();
    let room = room_id();
    assert_eq!(initialize(&mut store, &room), Ok(()));
    let cred = SenderCredential { signer: user(1), signature_valid: false };
    let r = send_message(&mut store, &room, &cred, user(2), vec![1u8], 5);
    assert_eq!(r, Err(ChatError::InvalidSignature));
    assert_eq!(room_message_count(&store, &room), Some(0));
}

#[test]
fn invalid_signature_reported_before_missing_room() {
    let mut store = RecordStore::new();
    let room = room_id();
    let cred = SenderCredential { signer: user(1), signature_valid: false };
    let r = send_message(&mut store, &room, &cred, user(2), vec![1u8], 5);
    assert_eq!(r, Err(ChatError::InvalidSignature));
}

#[test]
fn oversized_content_rejected() {
    let mut store = RecordStore::new();
    let room = room_id();
    assert_eq!(initialize(&mut store, &room), Ok(()));
    let r = send_message(&mut store, &room, &valid_cred(1), user(2), vec![0u8; MAX_CONTENT_LEN + 1], 5);
    assert_eq!(r, Err(ChatError::ContentTooLarge));
    assert_eq!(room_message_count(&store, &room), Some(0));
    let first_addr = message_address(&room, 0);
    assert!(store.read(&first_addr).is_none());
}

#[test]
fn largest_content_accepted() {
    let mut store = RecordStore::new();
    let room = room_id();
    assert_eq!(initialize(&mut store, &room), Ok(()));
    let r = send_message(&mut store, &room, &valid_cred(1), user(2), vec![0u8; MAX_CONTENT_LEN], 5);
    assert_eq!(r, Ok(0));
    assert_eq!(room_message_count(&store, &room), Some(1));
}

#[test]
fn message_record_fields() {
    let mut store = RecordStore::new();
    let room = room_id();
    assert_eq!(initialize(&mut store, &room), Ok(()));
    let content = vec![9u8, 8u8, 7u8];
    let r = send_message(&mut store, &room, &valid_cred(3), user(4), content.clone(), 1_700_000_000);
    assert_eq!(r, Ok(0));
    let addr = message_address(&room, 0);
    match store.read(&addr) {
        Some(StoredRecord::Message(m)) => {
            assert_eq!(m.sender.bytes, [3u8; 32]);
            assert_eq!(m.recipient.bytes, [4u8; 32]);
            assert_eq!(m.encrypted_content, content);
            assert_eq!(m.timestamp, 1_700_000_000);
            assert_eq!(m.message_id, 0);
        },
        _ => panic!("expected a message record at the derived address"),
    }
}

#[test]
fn sequence_numbers_are_gapless_and_unique() {
    let mut store = RecordStore::new();
    let room = room_id();
    assert_eq!(initialize(&mut store, &room), Ok(()));
    let mut seen = Vec::new();
    for k in 0..3u64 {
        let r = send_message(&mut store, &room, &valid_cred(1), user(2), vec![k as u8], k as i64);
        let n = r.expect("send should succeed in an initialized room");
        assert!(!seen.contains(&n));
        seen.push(n);
    }
    assert_eq!(seen, vec![0, 1, 2]);
    assert_eq!(room_message_count(&store, &room), Some(3));
    for k in 0..3u64 {
        let addr = message_address(&room, k);
        match store.read(&addr) {
            Some(StoredRecord::Message(m)) => assert_eq!(m.message_id, k),
            _ => panic!("expected a message record for every assigned number"),
        }
    }
    let beyond = message_address(&room, 3);
    assert!(store.read(&beyond).is_none());
}

#[test]
fn counter_matches_record_set() {
    let mut store = RecordStore::new();
    let room = room_id();
    assert_eq!(initialize(&mut store, &room), Ok(()));
    for k in 0..4u64 {
        assert_eq!(send_message(&mut store, &room, &valid_cred(1), user(2), vec![], k as i64), Ok(k));
    }
    assert_eq!(room_message_count(&store, &room), Some(4));
    for k in 0..4u64 {
        assert!(store.read(&message_address(&room, k)).is_some());
    }
    assert!(store.read(&message_address(&room, 4)).is_none());
}

#[test]
fn race_exactly_one_winner() {
    let mut store = RecordStore::new();
    let room = room_id();
    assert_eq!(initialize(&mut store, &room), Ok(()));
    for k in 0..5u64 {
        assert_eq!(send_message(&mut store, &room, &valid_cred(1), user(2), vec![], k as i64), Ok(k));
    }
    // Two senders both observed message_count == 5; the attempts arrive in
    // some order, and only the first can claim the derived address.
    let first = send_message_at(&mut store, &room, 5, &valid_cred(6), user(7), vec![1u8], 50);
    assert_eq!(first, Ok(5));
    let second = send_message_at(&mut store, &room, 5, &valid_cred(8), user(9), vec![2u8], 51);
    assert_eq!(second, Err(ChatError::AddressCollision));
    assert_eq!(room_message_count(&store, &room), Some(6));
}

#[test]
fn stale_retry_succeeds_after_collision() {
    let mut store = RecordStore::new();
    let room = room_id();
    assert_eq!(initialize(&mut store, &room), Ok(()));
    assert_eq!(send_message(&mut store, &room, &valid_cred(1), user(2), vec![], 1), Ok(0));
    // An attempt built from the stale observation 0 loses the race...
    let stale = send_message_at(&mut store, &room, 0, &valid_cred(3), user(4), vec![5u8], 2);
    assert_eq!(stale, Err(ChatError::AddressCollision));
    assert_eq!(room_message_count(&store, &room), Some(1));
    // ...and succeeds after re-reading the counter, as callers are expected
    // to do.
    let fresh = room_message_count(&store, &room).unwrap();
    let retry = send_message_at(&mut store, &room, fresh, &valid_cred(3), user(4), vec![5u8], 3);
    assert_eq!(retry, Ok(1));
}

#[test]
fn oversized_content_reported_before_collision() {
    let mut store = RecordStore::new();
    let room = room_id();
    assert_eq!(initialize(&mut store, &room), Ok(()));
    assert_eq!(send_message(&mut store, &room, &valid_cred(1), user(2), vec![], 1), Ok(0));
    // Stale observation and oversized content: the record is sized before
    // the address is claimed, so the size failure wins.
    let r = send_message_at(&mut store, &room, 0, &valid_cred(1), user(2), vec![0u8; MAX_CONTENT_LEN + 1], 2);
    assert_eq!(r, Err(ChatError::ContentTooLarge));
}

#[test]
fn stub_query_always_succeeds() {
    let r = get_messages_for_user(&user(1));
    assert_eq!(r, Ok(()));
}

#[test]
fn rooms_do_not_share_registries() {
    let mut store = RecordStore::new();
    let lobby = b"lobby".to_vec();
    let annex = b"annex".to_vec();
    assert_eq!(initialize(&mut store, &lobby), Ok(()));
    assert_eq!(room_message_count(&store, &annex), None);
    assert_eq!(initialize(&mut store, &annex), Ok(()));
    assert_eq!(send_message(&mut store, &lobby, &valid_cred(1), user(2), vec![1u8], 1), Ok(0));
    assert_eq!(room_message_count(&store, &lobby), Some(1));
    assert_eq!(room_message_count(&store, &annex), Some(0));
}
