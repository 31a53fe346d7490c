//! Slot-by-slot simulator of a sharded proof-of-stake beacon chain with a
//! per-shard data-availability market.

pub mod beacon_chain;
pub mod bid;
pub mod errors;
pub mod eth2_config;
pub mod eth2_types;
pub mod eth2_utils;
pub mod pagination;
pub mod shard;
pub mod simulation_params;
pub mod simulator;
