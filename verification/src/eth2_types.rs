//! Record types of the simulated beacon chain: roots, commitments, headers,
//! blocks, states and checkpoints, together with their canonical byte
//! encodings and deterministic digest roots.
//!
//! Cryptography is stubbed: commitments and signatures are deterministic
//! digests of their inputs, carried as little-endian 64-bit words.

use vstd::prelude::*;

use crate::eth2_config::{GENESIS_EPOCH, GENESIS_SLOT, INIT_SHARD_GASPRICE};
use crate::eth2_utils::{
    calculate_hash, chain_hash, hash_of_bytes, lemma_u64_le_bytes_len, next_hash, push_u64_le,
    u64_le_bytes,
};

verus! {

broadcast use lemma_u64_le_bytes_len;

/// A 32-byte root, carried as four little-endian 64-bit words.
#[derive(Clone, Copy, Debug, PartialEq, Eq, Hash, Structural)]
pub struct Root {
    pub w0: u64,
    pub w1: u64,
    pub w2: u64,
    pub w3: u64,
}

/// The all-zero root.
pub open spec fn spec_zero_root() -> Root {
    Root { w0: 0, w1: 0, w2: 0, w3: 0 }
}

impl Root {
    /// The all-zero root.
    pub fn zero() -> (r: Root)
        ensures
            r == spec_zero_root(),
    {
        Root { w0: 0, w1: 0, w2: 0, w3: 0 }
    }
}

/// The parent root recorded by the first block of the chain.
pub fn genesis_parent_root() -> (r: Root)
    ensures
        r == spec_zero_root(),
{
    Root::zero()
}

/// A 48-byte commitment point stub, carried as six 64-bit words.
#[derive(Clone, Copy, Debug, PartialEq, Eq, Hash, Structural)]
pub struct CommitmentPoint {
    pub w0: u64,
    pub w1: u64,
    pub w2: u64,
    pub w3: u64,
    pub w4: u64,
    pub w5: u64,
}

/// A 96-byte signature stub, carried as twelve 64-bit words.
#[derive(Clone, Copy, Debug, PartialEq, Eq, Hash, Structural)]
pub struct BlsSignature {
    pub w0: u64,
    pub w1: u64,
    pub w2: u64,
    pub w3: u64,
    pub w4: u64,
    pub w5: u64,
    pub w6: u64,
    pub w7: u64,
    pub w8: u64,
    pub w9: u64,
    pub w10: u64,
    pub w11: u64,
}

/// A commitment to a data blob: a stub point and the blob length in 31-byte
/// field points.
#[derive(Clone, Copy, Debug, PartialEq, Eq, Hash, Structural)]
pub struct DataCommitment {
    pub point: CommitmentPoint,
    pub length: u64,
}

/// The default commitment: zero point, zero length.
pub open spec fn spec_default_commitment() -> DataCommitment {
    DataCommitment {
        point: CommitmentPoint { w0: 0, w1: 0, w2: 0, w3: 0, w4: 0, w5: 0 },
        length: 0,
    }
}

impl Default for DataCommitment {
    fn default() -> (d: Self)
        ensures
            d == spec_default_commitment(),
    {
        DataCommitment {
            point: CommitmentPoint { w0: 0, w1: 0, w2: 0, w3: 0, w4: 0, w5: 0 },
            length: 0,
        }
    }
}

/// A shard header: the blob commitment a shard proposes for one slot.
#[derive(Clone, Copy, Debug, PartialEq, Eq, Hash, Structural)]
pub struct ShardHeader {
    pub slot: u64,
    pub shard: u64,
    pub commitment: DataCommitment,
}

/// A shard header together with its (stub) signature.
#[derive(Clone, Copy, Debug, PartialEq, Eq, Hash, Structural)]
pub struct SignedShardHeader {
    pub message: ShardHeader,
    pub signature: BlsSignature,
}

/// A shard header recorded in a beacon state, awaiting confirmation.
#[derive(Clone, Copy, Debug, PartialEq, Eq, Hash, Structural)]
pub struct PendingShardHeader {
    pub slot: u64,
    pub shard: u64,
    pub commitment: DataCommitment,
    pub root: Root,
    pub confirmed: bool,
}

/// An (epoch, root) pair identifying the first block of an epoch.
#[derive(Clone, Copy, Debug, PartialEq, Eq, Hash, Structural)]
pub struct Checkpoint {
    pub epoch: u64,
    pub root: Root,
}

/// The genesis checkpoint: epoch 0, zero root.
pub open spec fn spec_genesis_checkpoint() -> Checkpoint {
    Checkpoint { epoch: GENESIS_EPOCH, root: spec_zero_root() }
}

impl Checkpoint {
    /// The checkpoint regarded as finalized at genesis.
    pub fn genesis_finalized_checkpoint() -> (c: Self)
        ensures
            c == spec_genesis_checkpoint(),
    {
        Checkpoint { epoch: GENESIS_EPOCH, root: Root::zero() }
    }
}

/// A beacon block: canonical chain entry for one slot.
#[derive(Debug)]
pub struct BeaconBlock {
    pub slot: u64,
    pub parent_root: Root,
    pub state_root: Root,
    /// At most `MAX_SHARD_HEADERS` entries.
    pub shard_headers: Vec<SignedShardHeader>,
}

/// The header form of a beacon block; its digest is the block root.
#[derive(Clone, Copy, Debug, PartialEq, Eq, Hash, Structural)]
pub struct BeaconBlockHeader {
    pub slot: u64,
    pub parent_root: Root,
    pub state_root: Root,
    pub body_root: Root,
}

/// A beacon state snapshot.
#[derive(Debug)]
pub struct BeaconState {
    pub slot: u64,
    pub finalized_checkpoint: Checkpoint,
    /// Pending headers from the previous epoch; at most 8192 entries.
    pub previous_epoch_pending_shard_headers: Vec<PendingShardHeader>,
    /// Pending headers from the current epoch; at most 8192 entries.
    pub current_epoch_pending_shard_headers: Vec<PendingShardHeader>,
    pub shard_gasprice: u64,
}

/// Two blocks with the same fields, their header lists compared by view.
pub open spec fn block_eq(a: BeaconBlock, b: BeaconBlock) -> bool {
    &&& a.slot == b.slot
    &&& a.parent_root == b.parent_root
    &&& a.state_root == b.state_root
    &&& a.shard_headers@ == b.shard_headers@
}

/// Two states with the same fields, their pending lists compared by view.
pub open spec fn state_eq(a: BeaconState, b: BeaconState) -> bool {
    &&& a.slot == b.slot
    &&& a.finalized_checkpoint == b.finalized_checkpoint
    &&& a.previous_epoch_pending_shard_headers@ == b.previous_epoch_pending_shard_headers@
    &&& a.current_epoch_pending_shard_headers@ == b.current_epoch_pending_shard_headers@
    &&& a.shard_gasprice == b.shard_gasprice
}

/// Copy a list of signed shard headers.
pub fn copy_signed_headers(v: &Vec<SignedShardHeader>) -> (r: Vec<SignedShardHeader>)
    ensures
        r@ == v@,
{
    let mut r: Vec<SignedShardHeader> = Vec::new();
    let mut i: usize = 0;
    while i < v.len()
        invariant
            0 <= i <= v@.len(),
            r@ == v@.take(i as int),
        decreases v@.len() - i,
    {
        proof {
            assert(v@.take(i as int + 1) =~= v@.take(i as int).push(v@[i as int]));
        }
        r.push(v[i]);
        i = i + 1;
    }
    proof {
        assert(v@.take(v@.len() as int) =~= v@);
    }
    r
}

/// Copy a list of pending shard headers.
pub fn copy_pending_headers(v: &Vec<PendingShardHeader>) -> (r: Vec<PendingShardHeader>)
    ensures
        r@ == v@,
{
    let mut r: Vec<PendingShardHeader> = Vec::new();
    let mut i: usize = 0;
    while i < v.len()
        invariant
            0 <= i <= v@.len(),
            r@ == v@.take(i as int),
        decreases v@.len() - i,
    {
        proof {
            assert(v@.take(i as int + 1) =~= v@.take(i as int).push(v@[i as int]));
        }
        r.push(v[i]);
        i = i + 1;
    }
    proof {
        assert(v@.take(v@.len() as int) =~= v@);
    }
    r
}

impl Clone for BeaconBlock {
    /// A field-for-field copy of the block.
    fn clone(&self) -> (res: Self)
        ensures
            block_eq(res, *self),
    {
        BeaconBlock {
            slot: self.slot,
            parent_root: self.parent_root,
            state_root: self.state_root,
            shard_headers: copy_signed_headers(&self.shard_headers),
        }
    }
}

impl Clone for BeaconState {
    /// A field-for-field copy of the state.
    fn clone(&self) -> (res: Self)
        ensures
            state_eq(res, *self),
    {
        BeaconState {
            slot: self.slot,
            finalized_checkpoint: self.finalized_checkpoint,
            previous_epoch_pending_shard_headers: copy_pending_headers(
                &self.previous_epoch_pending_shard_headers,
            ),
            current_epoch_pending_shard_headers: copy_pending_headers(
                &self.current_epoch_pending_shard_headers,
            ),
            shard_gasprice: self.shard_gasprice,
        }
    }
}

// ---------------------------------------------------------------------------
// Canonical byte encodings.
// ---------------------------------------------------------------------------

/// Canonical encoding of a root.
pub open spec fn enc_root(r: Root) -> Seq<u8> {
    u64_le_bytes(r.w0) + u64_le_bytes(r.w1) + u64_le_bytes(r.w2) + u64_le_bytes(r.w3)
}

/// Canonical encoding of a commitment.
pub open spec fn enc_commitment(c: DataCommitment) -> Seq<u8> {
    u64_le_bytes(c.point.w0) + u64_le_bytes(c.point.w1) + u64_le_bytes(c.point.w2)
        + u64_le_bytes(c.point.w3) + u64_le_bytes(c.point.w4) + u64_le_bytes(c.point.w5)
        + u64_le_bytes(c.length)
}

/// Canonical encoding of a shard header.
pub open spec fn enc_shard_header(h: ShardHeader) -> Seq<u8> {
    u64_le_bytes(h.slot) + u64_le_bytes(h.shard) + enc_commitment(h.commitment)
}

/// Canonical encoding of a signature stub.
pub open spec fn enc_signature(s: BlsSignature) -> Seq<u8> {
    u64_le_bytes(s.w0) + u64_le_bytes(s.w1) + u64_le_bytes(s.w2) + u64_le_bytes(s.w3)
        + u64_le_bytes(s.w4) + u64_le_bytes(s.w5) + u64_le_bytes(s.w6) + u64_le_bytes(s.w7)
        + u64_le_bytes(s.w8) + u64_le_bytes(s.w9) + u64_le_bytes(s.w10) + u64_le_bytes(s.w11)
}

/// Canonical encoding of a signed shard header.
pub open spec fn enc_signed_header(sh: SignedShardHeader) -> Seq<u8> {
    enc_shard_header(sh.message) + enc_signature(sh.signature)
}

/// Canonical encoding of a pending shard header.
pub open spec fn enc_pending_header(p: PendingShardHeader) -> Seq<u8> {
    u64_le_bytes(p.slot) + u64_le_bytes(p.shard) + enc_commitment(p.commitment) + enc_root(p.root)
        + seq![if p.confirmed { 1u8 } else { 0u8 }]
}

/// Canonical encoding of a checkpoint.
pub open spec fn enc_checkpoint(c: Checkpoint) -> Seq<u8> {
    u64_le_bytes(c.epoch) + enc_root(c.root)
}

/// Concatenated encodings of a list of signed shard headers.
pub open spec fn cat_signed_headers(s: Seq<SignedShardHeader>) -> Seq<u8>
    decreases s.len(),
{
    if s.len() == 0 {
        Seq::<u8>::empty()
    } else {
        cat_signed_headers(s.drop_last()) + enc_signed_header(s.last())
    }
}

/// Canonical (length-prefixed) encoding of a list of signed shard headers.
pub open spec fn enc_signed_header_list(s: Seq<SignedShardHeader>) -> Seq<u8> {
    u64_le_bytes(s.len() as u64) + cat_signed_headers(s)
}

/// Concatenated encodings of a list of pending shard headers.
pub open spec fn cat_pending_headers(s: Seq<PendingShardHeader>) -> Seq<u8>
    decreases s.len(),
{
    if s.len() == 0 {
        Seq::<u8>::empty()
    } else {
        cat_pending_headers(s.drop_last()) + enc_pending_header(s.last())
    }
}

/// Canonical (length-prefixed) encoding of a list of pending shard headers.
pub open spec fn enc_pending_header_list(s: Seq<PendingShardHeader>) -> Seq<u8> {
    u64_le_bytes(s.len() as u64) + cat_pending_headers(s)
}

/// Canonical encoding of a beacon block header.
pub open spec fn enc_block_header(h: BeaconBlockHeader) -> Seq<u8> {
    u64_le_bytes(h.slot) + enc_root(h.parent_root) + enc_root(h.state_root)
        + enc_root(h.body_root)
}

/// Canonical encoding of a beacon state, given by its parts.
pub open spec fn enc_state_parts(
    slot: u64,
    finalized: Checkpoint,
    prev: Seq<PendingShardHeader>,
    cur: Seq<PendingShardHeader>,
    gasprice: u64,
) -> Seq<u8> {
    u64_le_bytes(slot) + enc_checkpoint(finalized) + enc_pending_header_list(prev)
        + enc_pending_header_list(cur) + u64_le_bytes(gasprice)
}

// ---------------------------------------------------------------------------
// Digest roots.
// ---------------------------------------------------------------------------

/// Expand a 64-bit seed into a root of four chained digest words.
pub open spec fn spec_root_from_seed(seed: u64) -> Root {
    Root {
        w0: chain_hash(seed, 1),
        w1: chain_hash(seed, 2),
        w2: chain_hash(seed, 3),
        w3: chain_hash(seed, 4),
    }
}

/// The root of a byte sequence.
pub open spec fn spec_root_of_bytes(s: Seq<u8>) -> Root {
    spec_root_from_seed(hash_of_bytes(s))
}

/// The root of a signed shard header.
pub open spec fn spec_signed_header_root(sh: SignedShardHeader) -> Root {
    spec_root_of_bytes(enc_signed_header(sh))
}

/// The body root of a block: the root of its shard header list.
pub open spec fn spec_body_root(headers: Seq<SignedShardHeader>) -> Root {
    spec_root_of_bytes(enc_signed_header_list(headers))
}

/// The header form of a block.
pub open spec fn spec_block_header(b: BeaconBlock) -> BeaconBlockHeader {
    BeaconBlockHeader {
        slot: b.slot,
        parent_root: b.parent_root,
        state_root: b.state_root,
        body_root: spec_body_root(b.shard_headers@),
    }
}

/// The root of a beacon block header.
pub open spec fn spec_header_root(h: BeaconBlockHeader) -> Root {
    spec_root_of_bytes(enc_block_header(h))
}

/// The root of a beacon block: the root of its header form.
pub open spec fn spec_block_root(b: BeaconBlock) -> Root {
    spec_header_root(spec_block_header(b))
}

/// The root of a beacon state, given by its parts.
pub open spec fn spec_state_root_parts(
    slot: u64,
    finalized: Checkpoint,
    prev: Seq<PendingShardHeader>,
    cur: Seq<PendingShardHeader>,
    gasprice: u64,
) -> Root {
    spec_root_of_bytes(enc_state_parts(slot, finalized, prev, cur, gasprice))
}

/// The root of a beacon state.
pub open spec fn spec_state_root(st: BeaconState) -> Root {
    spec_state_root_parts(
        st.slot,
        st.finalized_checkpoint,
        st.previous_epoch_pending_shard_headers@,
        st.current_epoch_pending_shard_headers@,
        st.shard_gasprice,
    )
}

/// Compute the root of a byte vector.
pub fn root_of_bytes(bytes: &Vec<u8>) -> (r: Root)
    ensures
        r == spec_root_of_bytes(bytes@),
{
    let seed = calculate_hash(bytes);
    let w0 = next_hash(seed);
    let w1 = next_hash(w0);
    let w2 = next_hash(w1);
    let w3 = next_hash(w2);
    proof {
        reveal_with_fuel(chain_hash, 2);
        assert(w0 == chain_hash(seed, 1));
        assert(w1 == chain_hash(seed, 2));
        assert(w2 == chain_hash(seed, 3));
        assert(w3 == chain_hash(seed, 4));
    }
    Root { w0, w1, w2, w3 }
}

// ---------------------------------------------------------------------------
// Executable encoders.
// ---------------------------------------------------------------------------

impl Root {
    /// Append the canonical encoding of this root to `out`.
    pub fn encode_into(&self, out: &mut Vec<u8>)
        ensures
            final(out)@ == old(out)@ + enc_root(*self),
    {
        push_u64_le(out, self.w0);
        push_u64_le(out, self.w1);
        push_u64_le(out, self.w2);
        push_u64_le(out, self.w3);
        proof {
            assert(out@ =~= old(out)@ + enc_root(*self));
        }
    }
}

impl DataCommitment {
    /// Append the canonical encoding of this commitment to `out`.
    pub fn encode_into(&self, out: &mut Vec<u8>)
        ensures
            final(out)@ == old(out)@ + enc_commitment(*self),
    {
        push_u64_le(out, self.point.w0);
        push_u64_le(out, self.point.w1);
        push_u64_le(out, self.point.w2);
        push_u64_le(out, self.point.w3);
        push_u64_le(out, self.point.w4);
        push_u64_le(out, self.point.w5);
        push_u64_le(out, self.length);
        proof {
            assert(out@ =~= old(out)@ + enc_commitment(*self));
        }
    }
}

impl ShardHeader {
    /// Append the canonical encoding of this header to `out`.
    pub fn encode_into(&self, out: &mut Vec<u8>)
        ensures
            final(out)@ == old(out)@ + enc_shard_header(*self),
    {
        push_u64_le(out, self.slot);
        push_u64_le(out, self.shard);
        self.commitment.encode_into(out);
        proof {
            assert(out@ =~= old(out)@ + enc_shard_header(*self));
        }
    }
}

impl SignedShardHeader {
    /// Append the canonical encoding of this signed header to `out`.
    pub fn encode_into(&self, out: &mut Vec<u8>)
        ensures
            final(out)@ == old(out)@ + enc_signed_header(*self),
    {
        self.message.encode_into(out);
        push_u64_le(out, self.signature.w0);
        push_u64_le(out, self.signature.w1);
        push_u64_le(out, self.signature.w2);
        push_u64_le(out, self.signature.w3);
        push_u64_le(out, self.signature.w4);
        push_u64_le(out, self.signature.w5);
        push_u64_le(out, self.signature.w6);
        push_u64_le(out, self.signature.w7);
        push_u64_le(out, self.signature.w8);
        push_u64_le(out, self.signature.w9);
        push_u64_le(out, self.signature.w10);
        push_u64_le(out, self.signature.w11);
        proof {
            assert(out@ =~= old(out)@ + enc_signed_header(*self));
        }
    }
}

impl PendingShardHeader {
    /// Append the canonical encoding of this pending header to `out`.
    pub fn encode_into(&self, out: &mut Vec<u8>)
        ensures
            final(out)@ == old(out)@ + enc_pending_header(*self),
    {
        push_u64_le(out, self.slot);
        push_u64_le(out, self.shard);
        self.commitment.encode_into(out);
        self.root.encode_into(out);
        if self.confirmed {
            out.push(1u8);
        } else {
            out.push(0u8);
        }
        proof {
            assert(out@ =~= old(out)@ + enc_pending_header(*self));
        }
    }
}

impl Checkpoint {
    /// Append the canonical encoding of this checkpoint to `out`.
    pub fn encode_into(&self, out: &mut Vec<u8>)
        ensures
            final(out)@ == old(out)@ + enc_checkpoint(*self),
    {
        push_u64_le(out, self.epoch);
        self.root.encode_into(out);
        proof {
            assert(out@ =~= old(out)@ + enc_checkpoint(*self));
        }
    }
}

/// Append the canonical encoding of a signed header list to `out`.
pub fn encode_signed_header_list_into(headers: &Vec<SignedShardHeader>, out: &mut Vec<u8>)
    ensures
        final(out)@ == old(out)@ + enc_signed_header_list(headers@),
{
    push_u64_le(out, headers.len() as u64);
    let mut i: usize = 0;
    proof {
        assert(headers@.take(0) =~= Seq::<SignedShardHeader>::empty());
        assert(out@ =~= old(out)@ + u64_le_bytes(headers@.len() as u64) + cat_signed_headers(
            headers@.take(0),
        ));
    }
    while i < headers.len()
        invariant
            0 <= i <= headers@.len(),
            out@ == old(out)@ + u64_le_bytes(headers@.len() as u64) + cat_signed_headers(
                headers@.take(i as int),
            ),
        decreases headers@.len() - i,
    {
        headers[i].encode_into(out);
        proof {
            assert(headers@.take(i as int + 1).drop_last() =~= headers@.take(i as int));
            assert(headers@.take(i as int + 1).last() == headers@[i as int]);
            assert(out@ =~= old(out)@ + u64_le_bytes(headers@.len() as u64) + cat_signed_headers(
                headers@.take(i as int + 1),
            ));
        }
        i = i + 1;
    }
    proof {
        assert(headers@.take(headers@.len() as int) =~= headers@);
    }
}

/// Append the canonical encoding of a pending header list to `out`.
pub fn encode_pending_header_list_into(headers: &Vec<PendingShardHeader>, out: &mut Vec<u8>)
    ensures
        final(out)@ == old(out)@ + enc_pending_header_list(headers@),
{
    push_u64_le(out, headers.len() as u64);
    let mut i: usize = 0;
    proof {
        assert(headers@.take(0) =~= Seq::<PendingShardHeader>::empty());
        assert(out@ =~= old(out)@ + u64_le_bytes(headers@.len() as u64) + cat_pending_headers(
            headers@.take(0),
        ));
    }
    while i < headers.len()
        invariant
            0 <= i <= headers@.len(),
            out@ == old(out)@ + u64_le_bytes(headers@.len() as u64) + cat_pending_headers(
                headers@.take(i as int),
            ),
        decreases headers@.len() - i,
    {
        headers[i].encode_into(out);
        proof {
            assert(headers@.take(i as int + 1).drop_last() =~= headers@.take(i as int));
            assert(headers@.take(i as int + 1).last() == headers@[i as int]);
            assert(out@ =~= old(out)@ + u64_le_bytes(headers@.len() as u64) + cat_pending_headers(
                headers@.take(i as int + 1),
            ));
        }
        i = i + 1;
    }
    proof {
        assert(headers@.take(headers@.len() as int) =~= headers@);
    }
}

// ---------------------------------------------------------------------------
// Constructors and root methods.
// ---------------------------------------------------------------------------

/// The length in 31-byte field points of a blob of `n` bytes.
pub open spec fn spec_point_length(n: nat) -> u64 {
    (n / 31 + if n % 31 == 0 {
        0int
    } else {
        1int
    }) as u64
}

/// The stub commitment derived from a blob's bytes: six chained digest words
/// and the blob's length in field points.
pub open spec fn spec_dummy_commitment(s: Seq<u8>) -> DataCommitment {
    let seed = hash_of_bytes(s);
    DataCommitment {
        point: CommitmentPoint {
            w0: chain_hash(seed, 1),
            w1: chain_hash(seed, 2),
            w2: chain_hash(seed, 3),
            w3: chain_hash(seed, 4),
            w4: chain_hash(seed, 5),
            w5: chain_hash(seed, 6),
        },
        length: spec_point_length(s.len()),
    }
}

impl DataCommitment {
    /// Generate a stub commitment from a blob's bytes: deterministic in the
    /// bytes, with `length` the blob size in 31-byte points, rounded up.
    pub fn dummy_from_bytes(bytes: &Vec<u8>) -> (c: Self)
        ensures
            c == spec_dummy_commitment(bytes@),
    {
        let seed = calculate_hash(bytes);
        let w0 = next_hash(seed);
        let w1 = next_hash(w0);
        let w2 = next_hash(w1);
        let w3 = next_hash(w2);
        let w4 = next_hash(w3);
        let w5 = next_hash(w4);
        proof {
            reveal_with_fuel(chain_hash, 2);
            assert(w0 == chain_hash(seed, 1));
            assert(w1 == chain_hash(seed, 2));
            assert(w2 == chain_hash(seed, 3));
            assert(w3 == chain_hash(seed, 4));
            assert(w4 == chain_hash(seed, 5));
            assert(w5 == chain_hash(seed, 6));
        }
        let n: usize = bytes.len();
        let q: u64 = (n / 31) as u64;
        let length: u64 = if n % 31 == 0 {
            q
        } else {
            q + 1
        };
        DataCommitment { point: CommitmentPoint { w0, w1, w2, w3, w4, w5 }, length }
    }
}

/// The stub signature over a shard header: twelve chained digest words seeded
/// by the header's encoding.
pub open spec fn spec_dummy_signed_header(h: ShardHeader) -> SignedShardHeader {
    let seed = hash_of_bytes(enc_shard_header(h));
    SignedShardHeader {
        message: h,
        signature: BlsSignature {
            w0: chain_hash(seed, 1),
            w1: chain_hash(seed, 2),
            w2: chain_hash(seed, 3),
            w3: chain_hash(seed, 4),
            w4: chain_hash(seed, 5),
            w5: chain_hash(seed, 6),
            w6: chain_hash(seed, 7),
            w7: chain_hash(seed, 8),
            w8: chain_hash(seed, 9),
            w9: chain_hash(seed, 10),
            w10: chain_hash(seed, 11),
            w11: chain_hash(seed, 12),
        },
    }
}

impl SignedShardHeader {
    /// Sign a shard header with the deterministic stub signature.
    pub fn dummy_from_header(header: ShardHeader) -> (sh: Self)
        ensures
            sh == spec_dummy_signed_header(header),
    {
        let mut buf: Vec<u8> = Vec::new();
        header.encode_into(&mut buf);
        proof {
            assert(buf@ =~= enc_shard_header(header));
        }
        let seed = calculate_hash(&buf);
        let w0 = next_hash(seed);
        let w1 = next_hash(w0);
        let w2 = next_hash(w1);
        let w3 = next_hash(w2);
        let w4 = next_hash(w3);
        let w5 = next_hash(w4);
        let w6 = next_hash(w5);
        let w7 = next_hash(w6);
        let w8 = next_hash(w7);
        let w9 = next_hash(w8);
        let w10 = next_hash(w9);
        let w11 = next_hash(w10);
        proof {
            reveal_with_fuel(chain_hash, 2);
            assert(w0 == chain_hash(seed, 1));
            assert(w1 == chain_hash(seed, 2));
            assert(w2 == chain_hash(seed, 3));
            assert(w3 == chain_hash(seed, 4));
            assert(w4 == chain_hash(seed, 5));
            assert(w5 == chain_hash(seed, 6));
            assert(w6 == chain_hash(seed, 7));
            assert(w7 == chain_hash(seed, 8));
            assert(w8 == chain_hash(seed, 9));
            assert(w9 == chain_hash(seed, 10));
            assert(w10 == chain_hash(seed, 11));
            assert(w11 == chain_hash(seed, 12));
        }
        SignedShardHeader {
            message: header,
            signature: BlsSignature {
                w0, w1, w2, w3, w4, w5, w6, w7, w8, w9, w10, w11,
            },
        }
    }
}

/// The pending form of a signed shard header, not yet confirmed.
pub open spec fn spec_pending_of(sh: SignedShardHeader) -> PendingShardHeader {
    PendingShardHeader {
        slot: sh.message.slot,
        shard: sh.message.shard,
        commitment: sh.message.commitment,
        root: spec_signed_header_root(sh),
        confirmed: false,
    }
}

impl PendingShardHeader {
    /// Record a signed shard header as pending, not yet confirmed.
    pub fn from_signed_shard_header(signed_header: &SignedShardHeader) -> (p: Self)
        ensures
            p == spec_pending_of(*signed_header),
    {
        let mut buf: Vec<u8> = Vec::new();
        signed_header.encode_into(&mut buf);
        proof {
            assert(buf@ =~= enc_signed_header(*signed_header));
        }
        let root = root_of_bytes(&buf);
        PendingShardHeader {
            slot: signed_header.message.slot,
            shard: signed_header.message.shard,
            commitment: signed_header.message.commitment,
            root,
            confirmed: false,
        }
    }
}

impl BeaconBlock {
    /// The header form of this block.
    pub fn header(&self) -> (h: BeaconBlockHeader)
        ensures
            h == spec_block_header(*self),
    {
        let mut buf: Vec<u8> = Vec::new();
        encode_signed_header_list_into(&self.shard_headers, &mut buf);
        proof {
            assert(buf@ =~= enc_signed_header_list(self.shard_headers@));
        }
        let body_root = root_of_bytes(&buf);
        BeaconBlockHeader {
            slot: self.slot,
            parent_root: self.parent_root,
            state_root: self.state_root,
            body_root,
        }
    }
}

impl BeaconBlockHeader {
    /// The root of this header.
    pub fn root(&self) -> (r: Root)
        ensures
            r == spec_header_root(*self),
    {
        let mut buf: Vec<u8> = Vec::new();
        push_u64_le(&mut buf, self.slot);
        self.parent_root.encode_into(&mut buf);
        self.state_root.encode_into(&mut buf);
        self.body_root.encode_into(&mut buf);
        proof {
            assert(buf@ =~= enc_block_header(*self));
        }
        root_of_bytes(&buf)
    }
}

impl BeaconState {
    /// The root of this state.
    pub fn root(&self) -> (r: Root)
        ensures
            r == spec_state_root(*self),
    {
        let mut buf: Vec<u8> = Vec::new();
        push_u64_le(&mut buf, self.slot);
        self.finalized_checkpoint.encode_into(&mut buf);
        encode_pending_header_list_into(&self.previous_epoch_pending_shard_headers, &mut buf);
        encode_pending_header_list_into(&self.current_epoch_pending_shard_headers, &mut buf);
        push_u64_le(&mut buf, self.shard_gasprice);
        proof {
            assert(buf@ =~= enc_state_parts(
                self.slot,
                self.finalized_checkpoint,
                self.previous_epoch_pending_shard_headers@,
                self.current_epoch_pending_shard_headers@,
                self.shard_gasprice,
            ));
        }
        root_of_bytes(&buf)
    }

    /// The beacon state at genesis.
    pub fn genesis_state() -> (st: Self)
        ensures
            st.slot == GENESIS_SLOT,
            st.finalized_checkpoint == spec_genesis_checkpoint(),
            st.previous_epoch_pending_shard_headers@ == Seq::<PendingShardHeader>::empty(),
            st.current_epoch_pending_shard_headers@ == Seq::<PendingShardHeader>::empty(),
            st.shard_gasprice == INIT_SHARD_GASPRICE,
    {
        BeaconState {
            slot: GENESIS_SLOT,
            finalized_checkpoint: Checkpoint::genesis_finalized_checkpoint(),
            previous_epoch_pending_shard_headers: Vec::new(),
            current_epoch_pending_shard_headers: Vec::new(),
            shard_gasprice: INIT_SHARD_GASPRICE,
        }
    }
}

/// Rebuilding a beacon state from the same parts yields the identical
/// root: the root is a function of the state's fields alone.
pub proof fn lemma_state_root_deterministic(a: BeaconState, b: BeaconState)
    requires
        state_eq(a, b),
    ensures
        spec_state_root(a) == spec_state_root(b),
{
}

/// The stub commitment is a pure function of the blob bytes: equal bytes
/// give the identical commitment.
pub proof fn lemma_dummy_commitment_deterministic(a: Seq<u8>, b: Seq<u8>)
    requires
        a == b,
    ensures
        spec_dummy_commitment(a) == spec_dummy_commitment(b),
{
}

/// Rebuilding a block from the same parts yields the identical root.
pub proof fn lemma_block_root_deterministic(a: BeaconBlock, b: BeaconBlock)
    requires
        block_eq(a, b),
    ensures
        spec_block_root(a) == spec_block_root(b),
{
}

} // verus!
