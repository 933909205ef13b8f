use chat_ledger::addressing::message_address;
use chat_ledger::addressing::room_address;
use chat_ledger::records::ChatRoom;
use chat_ledger::records::Message;
use chat_ledger::records::UserKey;
use chat_ledger::store::RecordStore;
use chat_ledger::store::StoreError;
use chat_ledger::store::StoredRecord;

#[test]
fn addresses_are_deterministic() {
    let room = b"lobby".to_vec();
    assert_eq!(room_address(&room), room_address(&room));
    assert_eq!(message_address(&room, 5), message_address(&room, 5));
}

#[test]
fn addresses_distinguish_sequence_numbers() {
    let room = b"lobby".to_vec();
    assert_ne!(message_address(&room, 0), message_address(&room, 1));
    assert_ne!(message_address(&room, 5), message_address(&room, 256));
}

#[test]
fn registry_and_message_addresses_never_meet() {
    let room = b"lobby".to_vec();
    for n in 0..4u64 {
        assert_ne!(room_address(&room), message_address(&room, n));
    }
}

#[test]
fn message_address_layout() {
    let room = b"r".to_vec();
    let mut expected = b"message".to_vec();
    expected.extend_from_slice(b"r");
    expected.extend_from_slice(&258u64.to_le_bytes());
    assert_eq!(message_address(&room, 258), expected);
    let mut registry = b"chat_room".to_vec();
    registry.extend_from_slice(b"r");
    assert_eq!(room_address(&room), registry);
}

#[test]
fn store_create_is_atomic_and_once() {
    let mut store = RecordStore::new();
    let addr = room_address(&b"lobby".to_vec());
    let first = store.create(addr.clone(), StoredRecord::Room(ChatRoom { message_count: 3 }));
    assert_eq!(first, Ok(()));
    let second = store.create(addr.clone(), StoredRecord::Room(ChatRoom { message_count: 9 }));
    assert_eq!(second, Err(StoreError::AddressOccupied));
    match store.read(&addr) {
        Some(StoredRecord::Room(c)) => assert_eq!(c.message_count, 3),
        _ => panic!("expected the first record to survive the failed create"),
    }
}

#[test]
fn store_rejects_oversized_records() {
    let mut store = RecordStore::new();
    let room = b"lobby".to_vec();
    let record = StoredRecord::Message(Message {
        sender: UserKey { bytes: [1u8; 32] },
        recipient: UserKey { bytes: [2u8; 32] },
        encrypted_content: vec![0u8; 513],
        timestamp: 0,
        message_id: 0,
    });
    let r = store.create(message_address(&room, 0), record);
    assert_eq!(r, Err(StoreError::RecordTooLarge));
    assert!(store.read(&message_address(&room, 0)).is_none());
}
