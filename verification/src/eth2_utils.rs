//! Utility functions: epoch arithmetic, the deterministic hash used for all
//! roots and stub signatures, and the gas-price controller formula.

use vstd::prelude::*;

use crate::eth2_config::{
    GASPRICE_ADJUSTMENT_QUOTIENT, MAX_GASPRICE, MAX_POINTS_PER_BLOCK, MIN_GASPRICE,
    SLOTS_PER_EPOCH, TARGET_SAMPLES_PER_BLOCK,
};

verus! {

/// Offset basis of the 64-bit FNV-1a hash.
pub const FNV_OFFSET_BASIS: u64 = 0xcbf29ce484222325;
/// Prime of the 64-bit FNV-1a hash.
pub const FNV_PRIME: u64 = 0x100000001b3;

/// One step of the FNV-1a hash: absorb byte `b` into state `h`.
pub open spec fn hash_step(h: u64, b: u8) -> u64 {
    (h ^ (b as u64)).wrapping_mul(FNV_PRIME)
}

/// FNV-1a over `s`, starting from state `h`.
#[verifier::opaque]
pub open spec fn hash_seq(s: Seq<u8>, h: u64) -> u64
    decreases s.len(),
{
    if s.len() == 0 {
        h
    } else {
        hash_seq(s.drop_first(), hash_step(h, s[0]))
    }
}

/// The 64-bit digest of a byte sequence.
pub open spec fn hash_of_bytes(s: Seq<u8>) -> u64 {
    hash_seq(s, FNV_OFFSET_BASIS)
}

/// The eight little-endian bytes of `x`.
#[verifier::opaque]
pub open spec fn u64_le_bytes(x: u64) -> Seq<u8> {
    seq![
        (x % 256) as u8,
        ((x / 256) % 256) as u8,
        ((x / 65536) % 256) as u8,
        ((x / 16777216) % 256) as u8,
        ((x / 4294967296) % 256) as u8,
        ((x / 1099511627776) % 256) as u8,
        ((x / 281474976710656) % 256) as u8,
        ((x / 72057594037927936) % 256) as u8,
    ]
}

/// The length of a `u64` encoding is eight bytes.
pub broadcast proof fn lemma_u64_le_bytes_len(x: u64)
    ensures
        (#[trigger] u64_le_bytes(x)).len() == 8,
{
    reveal(u64_le_bytes);
}

/// Iterated digest: `n` rounds of hashing the little-endian bytes of the
/// previous round, starting from `seed`.
pub open spec fn chain_hash(seed: u64, n: nat) -> u64
    decreases n,
{
    if n == 0 {
        seed
    } else {
        hash_of_bytes(u64_le_bytes(chain_hash(seed, (n - 1) as nat)))
    }
}

/// Append the eight little-endian bytes of `x` to `out`.
pub fn push_u64_le(out: &mut Vec<u8>, x: u64)
    ensures
        final(out)@ == old(out)@ + u64_le_bytes(x),
{
    out.push((x % 256) as u8);
    out.push(((x / 256) % 256) as u8);
    out.push(((x / 65536) % 256) as u8);
    out.push(((x / 16777216) % 256) as u8);
    out.push(((x / 4294967296) % 256) as u8);
    out.push(((x / 1099511627776) % 256) as u8);
    out.push(((x / 281474976710656) % 256) as u8);
    out.push(((x / 72057594037927936) % 256) as u8);
    proof {
        reveal(u64_le_bytes);
        assert(out@ =~= old(out)@ + u64_le_bytes(x));
    }
}

/// Compute the 64-bit digest of a byte vector.
pub fn calculate_hash(bytes: &Vec<u8>) -> (h: u64)
    ensures
        h == hash_of_bytes(bytes@),
{
    let mut h: u64 = FNV_OFFSET_BASIS;
    let mut i: usize = 0;
    proof {
        reveal_with_fuel(hash_seq, 1);
        assert(bytes@.skip(0) =~= bytes@);
    }
    while i < bytes.len()
        invariant
            0 <= i <= bytes@.len(),
            hash_seq(bytes@.skip(i as int), h) == hash_of_bytes(bytes@),
        decreases bytes@.len() - i,
    {
        proof {
            reveal_with_fuel(hash_seq, 1);
            assert(bytes@.skip(i as int).drop_first() =~= bytes@.skip(i as int + 1));
        }
        h = (h ^ (bytes[i] as u64)).wrapping_mul(FNV_PRIME);
        i = i + 1;
    }
    proof {
        reveal_with_fuel(hash_seq, 1);
        assert(bytes@.skip(bytes@.len() as int) =~= Seq::<u8>::empty());
    }
    h
}

/// One round of the iterated digest.
pub fn next_hash(x: u64) -> (r: u64)
    ensures
        r == hash_of_bytes(u64_le_bytes(x)),
{
    let mut buf: Vec<u8> = Vec::new();
    push_u64_le(&mut buf, x);
    proof {
        reveal(u64_le_bytes);
        assert(buf@ =~= u64_le_bytes(x));
    }
    calculate_hash(&buf)
}

/// The epoch number at `slot`.
pub open spec fn spec_epoch_at_slot(slot: u64) -> u64 {
    slot / SLOTS_PER_EPOCH
}

/// The first slot of `epoch`.
pub open spec fn spec_start_slot_at_epoch(epoch: u64) -> u64
    recommends
        epoch <= u64::MAX / SLOTS_PER_EPOCH,
{
    (epoch * SLOTS_PER_EPOCH) as u64
}

/// Compute the epoch number at `slot`.
pub fn compute_epoch_at_slot(slot: u64) -> (epoch: u64)
    ensures
        epoch == spec_epoch_at_slot(slot),
{
    slot / SLOTS_PER_EPOCH
}

/// Compute the start slot of `epoch`.
pub fn compute_start_slot_at_epoch(epoch: u64) -> (slot: u64)
    requires
        epoch <= u64::MAX / SLOTS_PER_EPOCH,
    ensures
        slot == spec_start_slot_at_epoch(epoch),
{
    epoch * SLOTS_PER_EPOCH
}

/// The gas-price controller: raise the price when the confirmed shard block
/// was above target, lower it (not below `MIN_GASPRICE`) when below target,
/// clamped to `MAX_GASPRICE` from above.
pub open spec fn spec_updated_gasprice(prev: u64, block_length: u64) -> u64
    recommends
        prev <= MAX_GASPRICE,
        block_length <= MAX_POINTS_PER_BLOCK,
{
    if block_length > TARGET_SAMPLES_PER_BLOCK {
        let delta = vstd::math::max(
            1,
            prev * (block_length - TARGET_SAMPLES_PER_BLOCK) / (TARGET_SAMPLES_PER_BLOCK as int)
                / (GASPRICE_ADJUSTMENT_QUOTIENT as int),
        );
        vstd::math::min(prev + delta, MAX_GASPRICE as int) as u64
    } else {
        let delta = vstd::math::max(
            1,
            prev * (TARGET_SAMPLES_PER_BLOCK - block_length) / (TARGET_SAMPLES_PER_BLOCK as int)
                / (GASPRICE_ADJUSTMENT_QUOTIENT as int),
        );
        (vstd::math::max(prev as int, MIN_GASPRICE + delta) - delta) as u64
    }
}

/// Compute the updated gas price from the previous price and the confirmed
/// shard block length.
pub fn compute_updated_gasprice(prev_gasprice: u64, shard_block_length: u64) -> (updated: u64)
    requires
        prev_gasprice <= MAX_GASPRICE,
        shard_block_length <= MAX_POINTS_PER_BLOCK,
    ensures
        updated == spec_updated_gasprice(prev_gasprice, shard_block_length),
        updated <= MAX_GASPRICE,
{
    if shard_block_length > TARGET_SAMPLES_PER_BLOCK {
        assert(prev_gasprice * (shard_block_length - TARGET_SAMPLES_PER_BLOCK)
            <= MAX_GASPRICE * MAX_POINTS_PER_BLOCK) by (nonlinear_arith)
            requires
                prev_gasprice <= MAX_GASPRICE,
                shard_block_length <= MAX_POINTS_PER_BLOCK,
                shard_block_length > TARGET_SAMPLES_PER_BLOCK,
        ;
        let numerator: u64 = prev_gasprice * (shard_block_length - TARGET_SAMPLES_PER_BLOCK);
        let raw: u64 = numerator / TARGET_SAMPLES_PER_BLOCK / GASPRICE_ADJUSTMENT_QUOTIENT;
        let delta: u64 = if raw < 1 {
            1
        } else {
            raw
        };
        if prev_gasprice + delta < MAX_GASPRICE {
            prev_gasprice + delta
        } else {
            MAX_GASPRICE
        }
    } else {
        assert(prev_gasprice * (TARGET_SAMPLES_PER_BLOCK - shard_block_length)
            <= MAX_GASPRICE * TARGET_SAMPLES_PER_BLOCK) by (nonlinear_arith)
            requires
                prev_gasprice <= MAX_GASPRICE,
                shard_block_length <= TARGET_SAMPLES_PER_BLOCK,
        ;
        let numerator: u64 = prev_gasprice * (TARGET_SAMPLES_PER_BLOCK - shard_block_length);
        let raw: u64 = numerator / TARGET_SAMPLES_PER_BLOCK / GASPRICE_ADJUSTMENT_QUOTIENT;
        let delta: u64 = if raw < 1 {
            1
        } else {
            raw
        };
        let bumped: u64 = if prev_gasprice >= MIN_GASPRICE + delta {
            prev_gasprice
        } else {
            MIN_GASPRICE + delta
        };
        bumped - delta
    }
}

} // verus!
