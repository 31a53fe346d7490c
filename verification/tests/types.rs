//! Tests of the record types: deterministic roots, commitments and stub
//! signatures.

use eth2_simulator::eth2_config::SHARD_NUM;
use eth2_simulator::eth2_types::{
    BeaconBlock, BeaconState, Checkpoint, DataCommitment, PendingShardHeader, ShardHeader,
    SignedShardHeader,
};

fn generate_dummy_from_str(s: &str) -> DataCommitment {
    let bytes = s.as_bytes().to_vec();
    DataCommitment::dummy_from_bytes(&bytes)
}

#[test]
fn calc_root() {
    let signed_headers: Vec<SignedShardHeader> = (0..SHARD_NUM * 2)
        .map(|num| {
            SignedShardHeader::dummy_from_header(ShardHeader {
                slot: num / SHARD_NUM,
                shard: num % SHARD_NUM,
                commitment: generate_dummy_from_str(&format!(
                    "Slot {}, Shard {}",
                    num / SHARD_NUM,
                    num % SHARD_NUM
                )),
            })
        })
        .collect();
    let state1 = BeaconState {
        slot: 0,
        finalized_checkpoint: Checkpoint::genesis_finalized_checkpoint(),
        previous_epoch_pending_shard_headers: Vec::new(),
        current_epoch_pending_shard_headers: signed_headers[..SHARD_NUM as usize]
            .iter()
            .map(|signed_header| PendingShardHeader::from_signed_shard_header(signed_header))
            .collect::<Vec<PendingShardHeader>>(),
        shard_gasprice: 0,
    };
    let block1 = BeaconBlock {
        slot: 0,
        parent_root: eth2_simulator::eth2_types::genesis_parent_root(),
        state_root: state1.root(),
        shard_headers: signed_headers[..SHARD_NUM as usize].to_vec(),
    };
    let state2 = BeaconState {
        slot: 1,
        finalized_checkpoint: Checkpoint::genesis_finalized_checkpoint(),
        previous_epoch_pending_shard_headers: Vec::new(),
        current_epoch_pending_shard_headers: signed_headers[SHARD_NUM as usize..]
            .iter()
            .map(|signed_header| PendingShardHeader::from_signed_shard_header(signed_header))
            .collect::<Vec<PendingShardHeader>>(),
        shard_gasprice: 0,
    };
    let block2 = BeaconBlock {
        slot: 1,
        parent_root: block1.header().root(),
        state_root: state2.root(),
        shard_headers: signed_headers[SHARD_NUM as usize..].to_vec(),
    };
    println!("block1: {:?}", block1.header().root());
    println!("block2: {:?}", block2.header().root());
    println!("state1: {:?}", state1.root());
    println!("state2: {:?}", state2.root());
    assert_ne!(block1.header().root(), block2.header().root());
    assert_ne!(state1.root(), state2.root());
    assert_eq!(block1.header().root(), block2.parent_root);

    let another_state2 = BeaconState {
        slot: 1,
        finalized_checkpoint: Checkpoint::genesis_finalized_checkpoint(),
        previous_epoch_pending_shard_headers: Vec::new(),
        current_epoch_pending_shard_headers: signed_headers[SHARD_NUM as usize..]
            .iter()
            .map(|signed_header| PendingShardHeader::from_signed_shard_header(signed_header))
            .collect::<Vec<PendingShardHeader>>(),
        shard_gasprice: 0,
    };
    let another_block2 = BeaconBlock {
        slot: 1,
        parent_root: block1.header().root(),
        state_root: state2.root(),
        shard_headers: signed_headers[SHARD_NUM as usize..].to_vec(),
    };
    assert_eq!(state2.root(), another_state2.root());
    assert_eq!(block2.header().root(), another_block2.header().root());
}

fn check_dummy_from_string(s: String) {
    let bytes = s.clone().into_bytes();
    let commitment = DataCommitment::dummy_from_bytes(&bytes);
    let n = s.len() as u64;
    let expected = n / 31 + if n % 31 == 0 { 0 } else { 1 };
    assert_eq!(expected, commitment.length);
}

fn compare_dummy_from_string(s1: String, s2: String) {
    let commitment1 = generate_dummy_from_str(&s1);
    let commitment2 = generate_dummy_from_str(&s2);
    if s1 == s2 {
        assert_eq!(commitment1, commitment2);
    } else {
        assert_ne!(commitment1, commitment2);
    }
}

#[test]
fn dummy_commitment() {
    check_dummy_from_string(String::from(""));
    check_dummy_from_string(String::from("hello"));
    compare_dummy_from_string(String::from("sharding"), String::from("sharding"));
    compare_dummy_from_string(String::from(""), String::from("Ethereum"));
    compare_dummy_from_string(String::from("Eth1"), String::from("Eth2"));
}

#[test]
fn dummy_signed_shard_header() {
    let header = ShardHeader {
        slot: 0,
        shard: 0,
        commitment: generate_dummy_from_str(&String::from("Ethreum")),
    };
    let signed_header1 = SignedShardHeader::dummy_from_header(header.clone());
    let signed_header2 = SignedShardHeader::dummy_from_header(header);
    // Dummy signature is deterministic.
    assert_eq!(signed_header1, signed_header2);
}
