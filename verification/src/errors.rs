//! Typed failures of slot processing and bid publication.

use vstd::prelude::*;

use crate::eth2_types::DataCommitment;

verus! {

/// Failure of a request to process slots.
#[derive(Clone, Copy, Debug, PartialEq, Eq, Structural)]
pub enum SlotProcessingError {
    /// The requested slot is lower than the next slot to be processed.
    PastSlot { next: u64, found: u64 },
}

/// Failure of a bid publication.
#[derive(Clone, Copy, Debug, PartialEq, Eq, Structural)]
pub enum BidPublicationError {
    /// The bid targets an already-processed slot.
    PastSlot { next: u64, found: u64 },
    /// The bid's commitment length exceeds `MAX_POINTS_PER_BLOCK`.
    TooLargeData { found: u64 },
    /// The bid's commitment does not match the commitment of the given data.
    InvalidCommitment { expect: DataCommitment, found: DataCommitment },
    /// The routing shard does not match the bid's shard.
    InvalidShard { expect: u64, found: u64 },
}

} // verus!
