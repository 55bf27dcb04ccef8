//! The record type, its bounds, the per-call account contexts, and the
//! errors an operation can fail with.

use vstd::prelude::*;

verus! {

/// Maximum byte length of a journal entry's title.
pub const MAX_TITLE_LEN: usize = 50;

/// Maximum byte length of a journal entry's message.
pub const MAX_MESSAGE_LEN: usize = 1000;

/// Fixed per-record storage overhead: an 8-byte record discriminator, the
/// 32-byte owner identity, and a 4-byte length prefix for each of the two
/// text fields.
pub const HEADER_SIZE: usize = 8 + 32 + 4 + 4;

/// Why an operation was rejected. Every failure is terminal for its
/// operation and leaves the store untouched.
#[derive(Clone, Copy, Debug, PartialEq, Eq, Structural)]
pub enum Error {
    /// A create call found a record already initialized at the derived
    /// address.
    AlreadyExists,
    /// An update or delete call found no record at the derived address.
    NotFound,
    /// The signer does not match the stored owner identity.
    Unauthorized,
    /// A title or message exceeds its declared maximum byte length.
    LengthExceeded,
}

/// One persisted journal entry: the owning identity, set once at creation,
/// the title the record was created under, immutable afterwards, and the
/// message, mutable via update.
pub struct JournalEntryState {
    pub owner: [u8; 32],
    pub title: Vec<u8>,
    pub message: Vec<u8>,
}

/// The mathematical image of one stored record: its fields as byte
/// sequences, together with the storage currently reserved for it.
#[verifier::ext_equal]
pub struct EntryView {
    pub owner: Seq<u8>,
    pub title: Seq<u8>,
    pub message: Seq<u8>,
    pub space: nat,
}

/// Accounts for a create call: the signer, who becomes the record's owner
/// and pays for its storage.
pub struct CreateEntry {
    pub owner: [u8; 32],
}

/// Accounts for an update call: the signer, who must be the record's owner
/// and is refunded for storage freed by compaction.
pub struct UpdateEntry {
    pub owner: [u8; 32],
}

/// Accounts for a delete call: the signer, who must be the record's owner
/// and receives the full storage deposit back.
pub struct DeleteEntry {
    pub owner: [u8; 32],
}

} // verus!
