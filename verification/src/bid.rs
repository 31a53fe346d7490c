//! Bids of the per-shard fee market for data-blob inclusion.

use vstd::prelude::*;

use crate::eth2_types::DataCommitment;

verus! {

/// An offer to place a data commitment on a specific (shard, slot) for a fee.
#[derive(Clone, Copy, Debug, PartialEq, Eq, Hash, Structural)]
pub struct Bid {
    pub shard: u64,
    pub slot: u64,
    pub commitment: DataCommitment,
    pub fee: u64,
}

} // verus!
