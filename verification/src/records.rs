//! The two record kinds of the ledger and the values that travel with a
//! submission: user identities, the sender's verified-identity credential,
//! and the error taxonomy shared by every operation.

use vstd::prelude::*;

verus! {

/// Largest number of content bytes a message record can hold. A message
/// record is sized at creation for exactly this much content, so longer
/// payloads are rejected by the storage layer.
pub const MAX_CONTENT_LEN: usize = 512;

/// A 32-byte public-key identifier naming a user.
#[derive(Clone, Copy, Debug)]
pub struct UserKey {
    pub bytes: [u8; 32],
}

/// The identity under which a submission was made, together with the
/// identity verifier's verdict on its signature. The transport layer checks
/// the signature and records the outcome here; the core consumes the verdict
/// and never sees the signature itself.
#[derive(Clone, Copy, Debug)]
pub struct SenderCredential {
    pub signer: UserKey,
    pub signature_valid: bool,
}

/// Room registry: the singleton record of a room, holding the number of
/// messages ever accepted into it. `message_count` is also the sequence
/// number the next accepted message will be assigned.
#[derive(Clone, Copy, Debug)]
pub struct ChatRoom {
    pub message_count: u64,
}

/// One sent message, immutable once created. `message_id` is the value the
/// room's counter had when this record was created; together with the room
/// identifier it determines the record's address.
#[derive(Debug)]
pub struct Message {
    pub sender: UserKey,
    pub recipient: UserKey,
    pub encrypted_content: Vec<u8>,
    pub timestamp: i64,
    pub message_id: u64,
}

/// Everything that can go wrong in an initialize or send action. Each error
/// is terminal for its action: a failed action changes nothing.
/// `AddressCollision` alone is transient — the caller lost a race and may
/// re-read the counter and resubmit.
#[derive(Clone, Copy, Debug, PartialEq, Eq, Structural)]
pub enum ChatError {
    AlreadyInitialized,
    RoomNotInitialized,
    InvalidSignature,
    ContentTooLarge,
    AddressCollision,
}

} // verus!
