//! A minimal single-record-type ledger store: clients create, update, and
//! delete named journal entry records, each owned by exactly one 32-byte
//! authority identity. Records live at addresses derived deterministically
//! from their title and owner; every mutation is gated on the stored owner,
//! and storage space is budgeted at creation, compacted on update, and
//! released on deletion.

pub mod addr;
pub mod entry;
pub mod ledger;
pub mod semantics;
