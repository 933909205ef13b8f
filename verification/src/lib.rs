//! An append-only messaging ledger.
//!
//! A chat room is a namespace inside a key-addressed record store. The room's
//! registry record holds a message counter; each accepted message becomes an
//! immutable record at an address derived deterministically from the room
//! identifier and the counter value at the time of creation. The store's
//! atomic create-once guarantee at that derived address is what serializes
//! concurrent senders: of two submissions built from the same observed counter
//! value, exactly one claims the address and the other fails with a collision.

pub mod addressing;
pub mod laws;
pub mod records;
pub mod sequencer;
pub mod store;
