//! A token-vesting / payment-streaming ledger.
//!
//! Principals deposit value that unlocks continuously to a recipient over a
//! time window, with an optional cliff before which nothing unlocks. The
//! library is the accounting core: the unlock-amount calculation, the stream
//! lifecycle state machine (create, partial withdraw, cancel), batch-creation
//! accounting, fee deduction, and the versioned schema-migration mechanism.
//!
//! Authentication, value transfer and persistent storage are external
//! collaborators: every operation takes the already-authenticated caller as a
//! plain argument, and returns the transfer instructions it decided on instead
//! of moving value itself. A host around the library performs the transfers,
//! persists the state and emits the events.

pub mod errors;
pub mod ledger;
pub mod math;
pub mod types;

pub use errors::Error;
pub use ledger::StellarStream;
pub use types::{DataKey, LegacyStream, Party, Stream, StreamRequest, StreamSlot, Transfer};
