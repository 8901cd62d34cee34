//! The ledger's error taxonomy. Every precondition violation aborts the whole
//! operation before any transfer instruction is issued or any state changes.

use vstd::prelude::*;

verus! {

/// Why an operation was refused. Each operation's contract says exactly which
/// error comes on which inputs.
#[derive(Clone, Copy, PartialEq, Eq, Structural, Debug)]
pub enum Error {
    /// The caller is not the required principal.
    Unauthorized,
    /// Time ordering or cliff placement is violated.
    InvalidRange,
    /// A non-positive amount.
    InvalidAmount,
    /// The fee rate exceeds 10% (1000 basis points).
    FeeOutOfBounds,
    /// The stream id is absent (or the record is not in the expected schema).
    NotFound,
    /// Nothing new is withdrawable at this time.
    NothingWithdrawable,
    /// Cancellation attempted at or after the stream's end time.
    AlreadyCompleted,
    /// The target version was already migrated once.
    AlreadyMigrated,
    /// The migration target does not move the version strictly forward.
    NonMonotonicMigration,
    /// An intermediate version has no defined migration step.
    UndefinedMigrationStep,
    /// The operation is blocked by the pause flag.
    Paused,
}

} // verus!
