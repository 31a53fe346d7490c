//! Validation and boundary tests: slot processing and bid publication
//! failures, exact gas-price values, and pagination windows.

use eth2_simulator::bid::Bid;
use eth2_simulator::errors::{BidPublicationError, SlotProcessingError};
use eth2_simulator::eth2_config::{
    GENESIS_SLOT, MAX_GASPRICE, MAX_POINTS_PER_BLOCK, MAX_SAMPLES_PER_BLOCK, MIN_GASPRICE,
    SHARD_NUM, SLOTS_PER_EPOCH,
};
use eth2_simulator::eth2_types::DataCommitment;
use eth2_simulator::eth2_utils::{
    calculate_hash, compute_epoch_at_slot, compute_start_slot_at_epoch, compute_updated_gasprice,
};
use eth2_simulator::pagination::{paginate_blocks, paginate_states};
use eth2_simulator::simulator::{validate_bid_shard, Simulator};

#[test]
fn process_slot_validation() {
    let mut simulator = Simulator::new();
    let end_slot = 50;
    let result = simulator.process_slots_happy(end_slot);
    assert!(result.is_ok());

    // Request past slot processing.
    let result = simulator.process_slots_happy(GENESIS_SLOT);
    assert_eq!(
        result,
        Err(SlotProcessingError::PastSlot {
            next: end_slot + 1,
            found: GENESIS_SLOT
        })
    );
    let result = simulator.process_slots_happy(end_slot);
    assert_eq!(
        result,
        Err(SlotProcessingError::PastSlot {
            next: end_slot + 1,
            found: end_slot
        })
    );
}

#[test]
fn publish_bid_validation() {
    let mut simulator = Simulator::new();
    let end_slot = 50;
    let result = simulator.process_slots_happy(end_slot);
    assert!(result.is_ok());

    let good_bid = Bid {
        shard: 0,
        slot: end_slot + 1,
        commitment: DataCommitment::dummy_from_bytes(&String::from("Test bid").into_bytes()),
        fee: 1,
    };
    let result = simulator.publish_bid(good_bid.clone());
    assert!(result.is_ok());

    let mut old_bid1 = good_bid.clone();
    old_bid1.slot = GENESIS_SLOT;
    let result = simulator.publish_bid(old_bid1);
    assert_eq!(
        result,
        Err(BidPublicationError::PastSlot {
            next: end_slot + 1,
            found: GENESIS_SLOT
        })
    );

    let mut old_bid2 = good_bid.clone();
    old_bid2.slot = end_slot;
    let result = simulator.publish_bid(old_bid2);
    assert_eq!(
        result,
        Err(BidPublicationError::PastSlot {
            next: end_slot + 1,
            found: end_slot
        })
    );

    let mut large_bid = good_bid;
    large_bid.commitment.length = MAX_POINTS_PER_BLOCK + 1;
    let result = simulator.publish_bid(large_bid);
    assert_eq!(
        result,
        Err(BidPublicationError::TooLargeData {
            found: MAX_POINTS_PER_BLOCK + 1
        })
    );
}

#[test]
fn publish_bid_boundaries() {
    // A fresh simulator; bids with slot 0, 50 and 51 after processing 50.
    let mut simulator = Simulator::new();
    assert!(simulator.process_slots_happy(50).is_ok());

    let base = Bid {
        shard: 3,
        slot: 51,
        commitment: DataCommitment::dummy_from_bytes(&String::from("boundary").into_bytes()),
        fee: 1,
    };

    let mut past0 = base.clone();
    past0.slot = 0;
    assert_eq!(
        simulator.publish_bid(past0),
        Err(BidPublicationError::PastSlot { next: 51, found: 0 })
    );

    let mut past50 = base.clone();
    past50.slot = 50;
    assert_eq!(
        simulator.publish_bid(past50),
        Err(BidPublicationError::PastSlot {
            next: 51,
            found: 50
        })
    );

    // A commitment at exactly the maximum length is accepted.
    let mut exact = base.clone();
    exact.commitment.length = MAX_POINTS_PER_BLOCK;
    assert!(simulator.publish_bid(exact).is_ok());

    // One point more is rejected.
    let mut too_large = base.clone();
    too_large.commitment.length = MAX_POINTS_PER_BLOCK + 1;
    assert_eq!(
        simulator.publish_bid(too_large),
        Err(BidPublicationError::TooLargeData {
            found: MAX_POINTS_PER_BLOCK + 1
        })
    );

    // A small commitment at the next slot is accepted.
    let mut small = base;
    small.commitment.length = 1;
    assert!(simulator.publish_bid(small).is_ok());
}

#[test]
fn publish_bid_with_data_commitment_check() {
    let mut simulator = Simulator::new();
    let data = String::from("shard blob payload").into_bytes();
    let commitment = DataCommitment::dummy_from_bytes(&data);

    // A bid whose commitment matches the data is accepted.
    let good = Bid {
        shard: 1,
        slot: 0,
        commitment,
        fee: 7,
    };
    assert!(simulator.publish_bid_with_data(good, &data).is_ok());

    // A bid whose commitment does not match the data is rejected.
    let other = DataCommitment::dummy_from_bytes(&String::from("other payload").into_bytes());
    let bad = Bid {
        shard: 1,
        slot: 0,
        commitment: other.clone(),
        fee: 7,
    };
    assert_eq!(
        simulator.publish_bid_with_data(bad, &data),
        Err(BidPublicationError::InvalidCommitment {
            expect: DataCommitment::dummy_from_bytes(&data),
            found: other,
        })
    );
}

#[test]
fn bid_shard_route_check() {
    let bid = Bid {
        shard: 5,
        slot: 0,
        commitment: DataCommitment::default(),
        fee: 0,
    };
    assert!(validate_bid_shard(5, &bid).is_ok());
    assert_eq!(
        validate_bid_shard(4, &bid),
        Err(BidPublicationError::InvalidShard {
            expect: 4,
            found: 5
        })
    );
}

#[test]
fn gasprice_formula_exact_values() {
    // Below target from zero: the controller lifts the price to one below
    // MIN_GASPRICE + delta, so small prices settle at MIN_GASPRICE.
    assert_eq!(compute_updated_gasprice(0, 0), MIN_GASPRICE);
    assert_eq!(compute_updated_gasprice(0, 0), 8);
    assert_eq!(compute_updated_gasprice(7, 0), 8);
    assert_eq!(compute_updated_gasprice(8, 0), 8);
    assert_eq!(compute_updated_gasprice(9, 0), 8);
    // Above target: the price rises at least by one.
    assert_eq!(compute_updated_gasprice(0, 2048), 1);
    assert_eq!(compute_updated_gasprice(100, 2048), 101);
    // A large price above target moves by prev * excess / target / quotient.
    let prev = 8_000_000_000;
    let expected_delta = prev * (2048 - 1024) / 1024 / 16384;
    assert_eq!(compute_updated_gasprice(prev, 2048), prev + expected_delta);
    // The rise clamps at MAX_GASPRICE.
    assert_eq!(
        compute_updated_gasprice(MAX_GASPRICE, MAX_POINTS_PER_BLOCK),
        MAX_GASPRICE
    );
}

#[test]
fn epoch_arithmetic() {
    assert_eq!(compute_epoch_at_slot(0), 0);
    assert_eq!(compute_epoch_at_slot(31), 0);
    assert_eq!(compute_epoch_at_slot(32), 1);
    assert_eq!(compute_epoch_at_slot(96), 3);
    assert_eq!(compute_start_slot_at_epoch(0), 0);
    assert_eq!(compute_start_slot_at_epoch(3), 96);
    assert_eq!(SLOTS_PER_EPOCH, 32);
    assert_eq!(SHARD_NUM, 64);
}

#[test]
fn hash_is_deterministic() {
    let a = vec![1u8, 2, 3, 4];
    let b = vec![1u8, 2, 3, 4];
    let c = vec![1u8, 2, 3, 5];
    assert_eq!(calculate_hash(&a), calculate_hash(&b));
    assert_ne!(calculate_hash(&a), calculate_hash(&c));
}

#[test]
fn gasprice_under_sustained_load() {
    // Full blocks on every shard for the first three epochs; the gas price
    // strictly rises at each epoch boundary that digests a loaded epoch,
    // and never exceeds MAX_GASPRICE.
    let mut simulator = Simulator::new();
    let mut boundary_prices: Vec<u64> = Vec::new();
    for slot in 0..192u64 {
        if slot < 96 {
            for shard in 0..SHARD_NUM {
                let mut commitment = DataCommitment::dummy_from_bytes(
                    &format!("load Slot {}, Shard {}", slot, shard).into_bytes(),
                );
                commitment.length = MAX_SAMPLES_PER_BLOCK;
                let bid = Bid {
                    shard,
                    slot,
                    commitment,
                    fee: 1_000_000,
                };
                assert!(simulator.publish_bid(bid).is_ok());
            }
        }
        assert!(simulator.process_slots_happy(slot).is_ok());
        let price = simulator.beacon_chain.state.shard_gasprice;
        assert!(price <= MAX_GASPRICE);
        if (slot + 1) % SLOTS_PER_EPOCH == 0 {
            boundary_prices.push(price);
        }
    }
    // Boundaries at slots 31, 63, 95, 127, 159, 191.
    assert_eq!(boundary_prices.len(), 6);
    // The boundary after epoch 0 digests no previous epoch: price unchanged.
    assert_eq!(boundary_prices[0], 0);
    // The boundaries digesting loaded epochs 0, 1 and 2 strictly rise.
    assert!(boundary_prices[1] > boundary_prices[0]);
    assert!(boundary_prices[2] > boundary_prices[1]);
    assert!(boundary_prices[3] > boundary_prices[2]);
    // While the load lasts, the price never falls between boundaries.
    // (After the load stops, empty blocks pull it back down.)
    assert!(boundary_prices[4] <= boundary_prices[3]);
}

#[test]
fn no_inclusion_epoch_back_pressure() {
    // Happy through slot 95; no shard header inclusion through slot 159;
    // happy again through slot 223. During the catastrophic epochs every
    // block is empty, and no block ever carries a header from outside the
    // current or previous epoch.
    let mut simulator = Simulator::new();
    assert!(simulator.process_slots_happy(95).is_ok());
    assert!(simulator
        .process_slots_without_shard_header_inclusion(159)
        .is_ok());
    for block in simulator.beacon_chain.blocks.iter() {
        if block.slot >= 96 {
            assert!(block.shard_headers.is_empty());
        }
    }
    assert!(simulator.process_slots_happy(223).is_ok());
    for block in simulator.beacon_chain.blocks.iter() {
        for header in block.shard_headers.iter() {
            let block_epoch = compute_epoch_at_slot(block.slot);
            let header_epoch = compute_epoch_at_slot(header.message.slot);
            assert!(block_epoch == header_epoch || block_epoch == header_epoch + 1);
        }
    }
}

#[test]
fn paginate_block_windows() {
    let mut simulator = Simulator::new();
    assert!(simulator.process_slots_happy(9).is_ok());
    let blocks = &simulator.beacon_chain.blocks;
    assert_eq!(blocks.len(), 10);

    // Fewer blocks than the page width: everything is returned.
    let all = paginate_blocks(blocks, 100, 0);
    assert_eq!(all.len(), 10);
    assert_eq!(all[0].slot, 0);
    assert_eq!(all[9].slot, 9);

    // Page 0 of width 4 holds the last four slots.
    let page0 = paginate_blocks(blocks, 4, 0);
    let slots0: Vec<u64> = page0.iter().map(|b| b.slot).collect();
    assert_eq!(slots0, vec![6, 7, 8, 9]);

    // Page 1 holds the four slots before them.
    let page1 = paginate_blocks(blocks, 4, 1);
    let slots1: Vec<u64> = page1.iter().map(|b| b.slot).collect();
    assert_eq!(slots1, vec![2, 3, 4, 5]);

    // Page 2 holds what is left.
    let page2 = paginate_blocks(blocks, 4, 2);
    let slots2: Vec<u64> = page2.iter().map(|b| b.slot).collect();
    assert_eq!(slots2, vec![0, 1]);

    // The state history paginates the same way.
    let states_page = paginate_states(&simulator.beacon_chain.states, 4, 1);
    let state_slots: Vec<u64> = states_page.iter().map(|s| s.slot).collect();
    assert_eq!(state_slots, vec![2, 3, 4, 5]);
}

#[test]
fn finalized_blocks_prefix() {
    let mut simulator = Simulator::new();
    // Before any finality, the finalized prefix is empty.
    assert!(simulator.process_slots_happy(10).is_ok());
    assert!(simulator.beacon_chain.get_finalized_blocks().is_empty());

    // At slot 96, epoch 1 is finalized: the first 33 blocks are final.
    assert!(simulator.process_slots_happy(96).is_ok());
    assert_eq!(simulator.beacon_chain.finalized_checkpoint.epoch, 1);
    let finalized = simulator.beacon_chain.get_finalized_blocks();
    assert_eq!(finalized.len(), 33);
    assert_eq!(finalized.last().unwrap().slot, 32);
    assert_eq!(
        simulator.beacon_chain.finalized_checkpoint.root,
        simulator.beacon_chain.blocks[32].header().root()
    );
}
