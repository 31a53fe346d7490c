//! Protocol constants of the simulated beacon chain and its shard data market.

use vstd::prelude::*;

verus! {

/// First slot of the chain.
pub const GENESIS_SLOT: u64 = 0;
/// Epoch of the genesis slot.
pub const GENESIS_EPOCH: u64 = 0;
/// Number of slots in one epoch.
pub const SLOTS_PER_EPOCH: u64 = 32;
/// Number of shards; assumed static.
pub const SHARD_NUM: u64 = 64;

/// Field points per data sample.
pub const POINTS_PER_SAMPLE: u64 = 8;
/// Maximum number of samples in one shard block.
pub const MAX_SAMPLES_PER_BLOCK: u64 = 2048;
/// Target number of samples in one shard block.
pub const TARGET_SAMPLES_PER_BLOCK: u64 = 1024;
/// Maximum number of field points in one shard block.
pub const MAX_POINTS_PER_BLOCK: u64 = POINTS_PER_SAMPLE * MAX_SAMPLES_PER_BLOCK;
/// Maximum shard headers a single beacon block may include, per shard.
pub const MAX_SHARD_HEADERS_PER_SHARD: u64 = 4;
/// Maximum shard headers a single beacon block may include, over all shards.
pub const MAX_SHARD_HEADERS: u64 = SHARD_NUM * MAX_SHARD_HEADERS_PER_SHARD;
/// Upper bound of the shard gas price.
pub const MAX_GASPRICE: u64 = 8589934592;
/// Lower bound that the gas-price controller steers towards from below.
pub const MIN_GASPRICE: u64 = 8;
/// Coefficient of the gas-price controller.
pub const GASPRICE_ADJUSTMENT_COEFFICIENT: u64 = 8;
/// Quotient of the gas-price controller.
pub const GASPRICE_ADJUSTMENT_QUOTIENT: u64 = SHARD_NUM * SLOTS_PER_EPOCH
    * GASPRICE_ADJUSTMENT_COEFFICIENT;
/// Shard gas price at genesis.
pub const INIT_SHARD_GASPRICE: u64 = 0;
/// Bytes represented by one field point of a data commitment.
pub const BYTES_PER_POINT: u64 = 31;

} // verus!
