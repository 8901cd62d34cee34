//! The ledger's data model.
//!
//! Principals (accounts, tokens) are opaque addresses; the library carries
//! them as plain 64-bit identifiers and never inspects them.

use vstd::prelude::*;

verus! {

/// An opaque principal identifier: an account or a token.
pub type Address = u64;

/// A stream in the current schema: a fixed principal `amount` (net of fee)
/// unlocking to `receiver` between `start_time` and `end_time`, gated by
/// `cliff_time`, with `withdrawn_amount` already paid out.
#[derive(Clone, Copy, PartialEq, Eq, Structural, Debug)]
pub struct Stream {
    pub sender: Address,
    pub receiver: Address,
    pub token: Address,
    pub amount: i128,
    pub start_time: u64,
    pub cliff_time: u64,
    pub end_time: u64,
    pub withdrawn_amount: i128,
}

/// A stream in the legacy schema, which lacks `cliff_time`. It exists only to
/// be read during migration; migrating it sets `cliff_time := start_time`.
#[derive(Clone, Copy, PartialEq, Eq, Structural, Debug)]
pub struct LegacyStream {
    pub sender: Address,
    pub receiver: Address,
    pub token: Address,
    pub amount: i128,
    pub start_time: u64,
    pub end_time: u64,
    pub withdrawn_amount: i128,
}

/// An unsaved creation intent used for batch creation; sender and token are
/// shared across the batch.
#[derive(Clone, Copy, PartialEq, Eq, Structural, Debug)]
pub struct StreamRequest {
    pub receiver: Address,
    pub amount: i128,
    pub start_time: u64,
    pub cliff_time: u64,
    pub end_time: u64,
}

/// A stored record: either the current schema or the legacy one. Reading a
/// record strictly as one schema fails on the other shape; both shapes are
/// explicit variants rather than decode-failure signals.
#[derive(Clone, Copy, PartialEq, Eq, Structural, Debug)]
pub enum StreamSlot {
    Current(Stream),
    Legacy(LegacyStream),
}

/// A key of the persistent store that the host keeps the ledger in.
#[derive(Clone, Copy, PartialEq, Eq, Structural, Debug)]
pub enum DataKey {
    Stream(u64),
    StreamId,
    Admin,
    FeeBps,
    Treasury,
    IsPaused,
    ContractVersion,
    MigrationExecuted(u32),
}

/// A party of a value transfer: the ledger's own custody, or an account.
#[derive(Clone, Copy, PartialEq, Eq, Structural, Debug)]
pub enum Party {
    Custody,
    Account(Address),
}

/// A transfer instruction the ledger decided on; the host's transfer service
/// performs it.
#[derive(Clone, Copy, PartialEq, Eq, Structural, Debug)]
pub struct Transfer {
    pub token: Address,
    pub from: Party,
    pub to: Party,
    pub amount: i128,
}

} // verus!
