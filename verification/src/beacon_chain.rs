//! The beacon chain engine: canonical block/state/checkpoint history, the
//! two-epoch shard header pools, the header inclusion scheduler, off-chain
//! finality, and the epoch-boundary gas-price update.

use vstd::prelude::*;

use crate::eth2_config::{
    GENESIS_EPOCH, GENESIS_SLOT, INIT_SHARD_GASPRICE, MAX_GASPRICE, MAX_POINTS_PER_BLOCK,
    MAX_SHARD_HEADERS, SHARD_NUM, SLOTS_PER_EPOCH,
};
use crate::eth2_types::{
    block_eq, spec_block_root, spec_genesis_checkpoint, spec_pending_of, spec_state_root_parts,
    spec_zero_root, state_eq, BeaconBlock, BeaconState, Checkpoint, PendingShardHeader,
    SignedShardHeader,
};
use crate::eth2_utils::{
    compute_epoch_at_slot, compute_start_slot_at_epoch, compute_updated_gasprice,
    spec_epoch_at_slot, spec_start_slot_at_epoch, spec_updated_gasprice,
};
use crate::simulation_params::BeaconSimulationParams;

verus! {

/// The beacon chain.
pub struct BeaconChain {
    /// The slot to be processed next; the last processed slot is `slot - 1`.
    pub slot: u64,
    /// The live beacon state, defined even for slots without a block.
    pub state: BeaconState,
    /// The latest finalized checkpoint (off-chain finality, not the finality
    /// recorded inside the state).
    pub finalized_checkpoint: Checkpoint,
    /// Beacon blocks of the main chain; slots may be skipped.
    pub blocks: Vec<BeaconBlock>,
    /// The state snapshot taken at each block of the main chain.
    pub states: Vec<BeaconState>,
    /// The checkpoint of each epoch; one block may serve several epochs.
    pub checkpoints: Vec<Checkpoint>,
    /// Shard headers of the previous epoch published but not yet included.
    pub previous_epoch_shard_header_pool: Vec<SignedShardHeader>,
    /// Shard headers of the current epoch published but not yet included.
    pub current_epoch_shard_header_pool: Vec<SignedShardHeader>,
}

// ---------------------------------------------------------------------------
// Chain invariants.
// ---------------------------------------------------------------------------

/// Each block's parent root is the root of its predecessor; the first
/// block's parent root is the zero root.
pub open spec fn hash_chain_ok(blocks: Seq<BeaconBlock>) -> bool {
    &&& (blocks.len() > 0 ==> blocks[0].parent_root == spec_zero_root())
    &&& forall|i: int|
        0 < i < blocks.len() ==> (#[trigger] blocks[i]).parent_root == spec_block_root(
            blocks[i - 1],
        )
}

/// Block slots are strictly increasing and below the next slot to process.
pub open spec fn blocks_slots_ok(blocks: Seq<BeaconBlock>, slot: u64) -> bool {
    &&& forall|i: int| 0 <= i < blocks.len() ==> (#[trigger] blocks[i]).slot < slot
    &&& forall|i: int, j: int|
        0 <= i < j < blocks.len() ==> (#[trigger] blocks[i]).slot < (#[trigger] blocks[j]).slot
}

/// Checkpoint `e` carries epoch `e`, and the list reaches exactly the epoch
/// of the last block.
pub open spec fn checkpoints_ok(checkpoints: Seq<Checkpoint>, blocks: Seq<BeaconBlock>) -> bool {
    &&& forall|e: int| 0 <= e < checkpoints.len() ==> (#[trigger] checkpoints[e]).epoch == e
    &&& (blocks.len() == 0 ==> checkpoints.len() == 0)
    &&& (blocks.len() > 0 ==> checkpoints.len() == spec_epoch_at_slot(blocks.last().slot) + 1)
}

/// Every previous-epoch pending header is one epoch behind the state's slot;
/// every current-epoch pending header is in the state's epoch; and all
/// recorded commitment lengths are bounded.
pub open spec fn pending_headers_ok(state: BeaconState) -> bool {
    &&& forall|i: int|
        0 <= i < state.previous_epoch_pending_shard_headers@.len() ==> {
            let h = #[trigger] state.previous_epoch_pending_shard_headers@[i];
            &&& spec_epoch_at_slot(h.slot) + 1 == spec_epoch_at_slot(state.slot)
            &&& h.commitment.length <= MAX_POINTS_PER_BLOCK
        }
    &&& forall|i: int|
        0 <= i < state.current_epoch_pending_shard_headers@.len() ==> {
            let h = #[trigger] state.current_epoch_pending_shard_headers@[i];
            &&& spec_epoch_at_slot(h.slot) == spec_epoch_at_slot(state.slot)
            &&& h.commitment.length <= MAX_POINTS_PER_BLOCK
        }
}

/// Every header included in a block comes from the block's epoch or the
/// epoch before it.
pub open spec fn block_headers_fresh_ok(b: BeaconBlock) -> bool {
    forall|i: int|
        0 <= i < b.shard_headers@.len() ==> {
            let e = spec_epoch_at_slot((#[trigger] b.shard_headers@[i]).message.slot);
            e == spec_epoch_at_slot(b.slot) || e + 1 == spec_epoch_at_slot(b.slot)
        }
}

impl BeaconChain {
    /// The pools hold headers of the chain's current epoch and of the epoch
    /// before it, with bounded commitment lengths.
    pub open spec fn pools_ok(&self) -> bool {
        &&& forall|i: int|
            0 <= i < self.previous_epoch_shard_header_pool@.len() ==> {
                let h = #[trigger] self.previous_epoch_shard_header_pool@[i];
                &&& spec_epoch_at_slot(h.message.slot) + 1 == spec_epoch_at_slot(self.slot)
                &&& h.message.commitment.length <= MAX_POINTS_PER_BLOCK
            }
        &&& forall|i: int|
            0 <= i < self.current_epoch_shard_header_pool@.len() ==> {
                let h = #[trigger] self.current_epoch_shard_header_pool@[i];
                &&& spec_epoch_at_slot(h.message.slot) == spec_epoch_at_slot(self.slot)
                &&& h.message.commitment.length <= MAX_POINTS_PER_BLOCK
            }
    }

    /// The chain invariant: the hash chain, checkpoint coverage, the pending
    /// epoch split, header freshness, pool epochs and the gas-price bound.
    pub open spec fn wf(&self) -> bool {
        &&& self.state.slot == self.slot
        &&& self.blocks@.len() == self.states@.len()
        &&& hash_chain_ok(self.blocks@)
        &&& blocks_slots_ok(self.blocks@, self.slot)
        &&& checkpoints_ok(self.checkpoints@, self.blocks@)
        &&& pending_headers_ok(self.state)
        &&& forall|i: int|
            0 <= i < self.states@.len() ==> pending_headers_ok(#[trigger] self.states@[i])
                && self.states@[i].slot == self.blocks@[i].slot
        &&& forall|i: int|
            0 <= i < self.blocks@.len() ==> block_headers_fresh_ok(#[trigger] self.blocks@[i])
                && self.blocks@[i].shard_headers@.len() <= MAX_SHARD_HEADERS
        &&& self.pools_ok()
        &&& self.state.shard_gasprice <= MAX_GASPRICE
        &&& (self.finalized_checkpoint == spec_genesis_checkpoint() || (
        self.finalized_checkpoint.epoch < self.checkpoints@.len()
            && self.finalized_checkpoint == self.checkpoints@[
            self.finalized_checkpoint.epoch as int
        ]))
    }
}

// ---------------------------------------------------------------------------
// The inclusion scheduler, as functions of the pools.
// ---------------------------------------------------------------------------

/// The first `k` headers of `s`, or all of `s` if it is shorter.
pub open spec fn spec_take_upto(s: Seq<SignedShardHeader>, k: int) -> Seq<SignedShardHeader> {
    if s.len() <= k {
        s
    } else {
        s.take(k)
    }
}

/// How many current-epoch headers may still be included after the
/// previous-epoch pool was drained.
pub open spec fn spec_remaining_quota(prev_pool: Seq<SignedShardHeader>) -> int {
    if prev_pool.len() >= MAX_SHARD_HEADERS {
        0
    } else {
        MAX_SHARD_HEADERS - prev_pool.len()
    }
}

/// The pending forms of a list of signed headers.
pub open spec fn spec_pendings_of(hs: Seq<SignedShardHeader>) -> Seq<PendingShardHeader> {
    hs.map_values(|h: SignedShardHeader| spec_pending_of(h))
}

/// All entries marked confirmed.
pub open spec fn spec_confirm_all(ps: Seq<PendingShardHeader>) -> Seq<PendingShardHeader> {
    ps.map_values(|p: PendingShardHeader| PendingShardHeader { confirmed: true, ..p })
}

// ---------------------------------------------------------------------------
// The epoch-boundary gas-price fold.
// ---------------------------------------------------------------------------

/// The first confirmed pending header matching `(slot, shard)`.
pub open spec fn spec_find_confirmed(
    headers: Seq<PendingShardHeader>,
    slot: u64,
    shard: u64,
) -> Option<PendingShardHeader>
    decreases headers.len(),
{
    if headers.len() == 0 {
        None
    } else if headers[0].slot == slot && headers[0].shard == shard && headers[0].confirmed {
        Some(headers[0])
    } else {
        spec_find_confirmed(headers.drop_first(), slot, shard)
    }
}

/// A found header is an entry of the list.
pub proof fn lemma_find_confirmed_is_entry(
    headers: Seq<PendingShardHeader>,
    slot: u64,
    shard: u64,
)
    ensures
        match spec_find_confirmed(headers, slot, shard) {
            Some(h) => exists|i: int| 0 <= i < headers.len() && #[trigger] headers[i] == h,
            None => true,
        },
    decreases headers.len(),
{
    if headers.len() > 0 {
        if !(headers[0].slot == slot && headers[0].shard == shard && headers[0].confirmed) {
            lemma_find_confirmed_is_entry(headers.drop_first(), slot, shard);
            match spec_find_confirmed(headers.drop_first(), slot, shard) {
                Some(h) => {
                    let i = choose|i: int|
                        0 <= i < headers.drop_first().len() && #[trigger] headers.drop_first()[i]
                            == h;
                    assert(headers[i + 1] == h);
                },
                None => {},
            }
        }
    }
}

/// Fold the gas-price update over shards `k..SHARD_NUM` of one slot.
pub open spec fn spec_gas_shard_fold(
    headers: Seq<PendingShardHeader>,
    g: u64,
    slot: u64,
    k: int,
) -> u64
    decreases SHARD_NUM - k,
{
    if k < 0 || k >= SHARD_NUM {
        g
    } else {
        let g1 = match spec_find_confirmed(headers, slot, k as u64) {
            Some(h) => spec_updated_gasprice(g, h.commitment.length),
            None => g,
        };
        spec_gas_shard_fold(headers, g1, slot, k + 1)
    }
}

/// Fold the gas-price update over slots `start + i .. start + SLOTS_PER_EPOCH`.
pub open spec fn spec_gas_slots_fold(
    headers: Seq<PendingShardHeader>,
    g: u64,
    start: u64,
    i: int,
) -> u64
    decreases SLOTS_PER_EPOCH - i,
{
    if i < 0 || i >= SLOTS_PER_EPOCH {
        g
    } else {
        spec_gas_slots_fold(
            headers,
            spec_gas_shard_fold(headers, g, (start + i) as u64, 0),
            start,
            i + 1,
        )
    }
}

/// The gas price after the epoch-boundary update of a state at `slot`: the
/// fold of `spec_updated_gasprice` over every (slot, shard) pair of the
/// previous epoch that has a confirmed pending header, in slot-major order.
pub open spec fn spec_epoch_gas_update(
    headers: Seq<PendingShardHeader>,
    gasprice: u64,
    slot: u64,
) -> u64 {
    if spec_epoch_at_slot(slot) == GENESIS_EPOCH {
        gasprice
    } else {
        spec_gas_slots_fold(
            headers,
            gasprice,
            spec_start_slot_at_epoch((spec_epoch_at_slot(slot) - 1) as u64),
            0,
        )
    }
}

/// Every pending commitment length bounded.
pub open spec fn pending_lengths_ok(headers: Seq<PendingShardHeader>) -> bool {
    forall|i: int|
        0 <= i < headers.len() ==> (#[trigger] headers[i]).commitment.length
            <= MAX_POINTS_PER_BLOCK
}

/// The shard fold keeps the gas price bounded.
pub proof fn lemma_gas_shard_fold_bound(
    headers: Seq<PendingShardHeader>,
    g: u64,
    slot: u64,
    k: int,
)
    requires
        g <= MAX_GASPRICE,
        pending_lengths_ok(headers),
    ensures
        spec_gas_shard_fold(headers, g, slot, k) <= MAX_GASPRICE,
    decreases SHARD_NUM - k,
{
    if 0 <= k < SHARD_NUM {
        let g1 = match spec_find_confirmed(headers, slot, k as u64) {
            Some(h) => spec_updated_gasprice(g, h.commitment.length),
            None => g,
        };
        lemma_find_confirmed_is_entry(headers, slot, k as u64);
        assert(g1 <= MAX_GASPRICE) by {
            match spec_find_confirmed(headers, slot, k as u64) {
                Some(h) => {
                    lemma_updated_gasprice_bound(g, h.commitment.length);
                },
                None => {},
            }
        }
        lemma_gas_shard_fold_bound(headers, g1, slot, k + 1);
    }
}

/// The slot fold keeps the gas price bounded.
pub proof fn lemma_gas_slots_fold_bound(
    headers: Seq<PendingShardHeader>,
    g: u64,
    start: u64,
    i: int,
)
    requires
        g <= MAX_GASPRICE,
        pending_lengths_ok(headers),
    ensures
        spec_gas_slots_fold(headers, g, start, i) <= MAX_GASPRICE,
    decreases SLOTS_PER_EPOCH - i,
{
    if 0 <= i < SLOTS_PER_EPOCH {
        lemma_gas_shard_fold_bound(headers, g, (start + i) as u64, 0);
        lemma_gas_slots_fold_bound(
            headers,
            spec_gas_shard_fold(headers, g, (start + i) as u64, 0),
            start,
            i + 1,
        );
    }
}

/// The gas-price formula stays within `MAX_GASPRICE` on bounded inputs.
pub proof fn lemma_updated_gasprice_bound(prev: u64, block_length: u64)
    requires
        prev <= MAX_GASPRICE,
        block_length <= MAX_POINTS_PER_BLOCK,
    ensures
        spec_updated_gasprice(prev, block_length) <= MAX_GASPRICE,
{
}

// ---------------------------------------------------------------------------
// Methods.
// ---------------------------------------------------------------------------

impl BeaconChain {
    /// A fresh beacon chain at the genesis slot with empty history and
    /// pools.
    pub fn new() -> (c: Self)
        ensures
            c.wf(),
            c.slot == GENESIS_SLOT,
            c.state.slot == GENESIS_SLOT,
            c.state.finalized_checkpoint == spec_genesis_checkpoint(),
            c.state.previous_epoch_pending_shard_headers@.len() == 0,
            c.state.current_epoch_pending_shard_headers@.len() == 0,
            c.state.shard_gasprice == INIT_SHARD_GASPRICE,
            c.finalized_checkpoint == spec_genesis_checkpoint(),
            c.blocks@.len() == 0,
            c.states@.len() == 0,
            c.checkpoints@.len() == 0,
            c.previous_epoch_shard_header_pool@.len() == 0,
            c.current_epoch_shard_header_pool@.len() == 0,
    {
        BeaconChain {
            slot: GENESIS_SLOT,
            state: BeaconState::genesis_state(),
            finalized_checkpoint: Checkpoint::genesis_finalized_checkpoint(),
            blocks: Vec::new(),
            states: Vec::new(),
            checkpoints: Vec::new(),
            previous_epoch_shard_header_pool: Vec::new(),
            current_epoch_shard_header_pool: Vec::new(),
        }
    }

    /// Compute the updated gas price from the previous price and the
    /// confirmed shard block length.
    pub fn compute_updated_gasprice(prev_gasprice: u64, shard_block_length: u64) -> (updated: u64)
        requires
            prev_gasprice <= MAX_GASPRICE,
            shard_block_length <= MAX_POINTS_PER_BLOCK,
        ensures
            updated == spec_updated_gasprice(prev_gasprice, shard_block_length),
            updated <= MAX_GASPRICE,
    {
        compute_updated_gasprice(prev_gasprice, shard_block_length)
    }

    /// Whether the finalized checkpoint still is the genesis checkpoint.
    fn finalized_is_genesis(&self) -> (r: bool)
        ensures
            r == (self.finalized_checkpoint == spec_genesis_checkpoint()),
    {
        let c = &self.finalized_checkpoint;
        c.epoch == GENESIS_EPOCH && c.root.w0 == 0 && c.root.w1 == 0 && c.root.w2 == 0
            && c.root.w3 == 0
    }

    /// Get the finalized prefix of the chain: empty while the genesis
    /// checkpoint stands, else every block at or before the start slot of
    /// the finalized epoch. Since block slots increase, that is a prefix.
    pub fn get_finalized_blocks(&self) -> (r: Vec<BeaconBlock>)
        requires
            self.wf(),
        ensures
            self.finalized_checkpoint == spec_genesis_checkpoint() ==> r@.len() == 0,
            self.finalized_checkpoint != spec_genesis_checkpoint() ==> {
                let bound = spec_start_slot_at_epoch(self.finalized_checkpoint.epoch);
                &&& r@.len() <= self.blocks@.len()
                &&& forall|i: int|
                    0 <= i < r@.len() ==> block_eq(#[trigger] r@[i], self.blocks@[i])
                        && self.blocks@[i].slot <= bound
                &&& forall|i: int|
                    r@.len() <= i < self.blocks@.len() ==> (#[trigger] self.blocks@[i]).slot
                        > bound
            },
    {
        if self.finalized_is_genesis() {
            Vec::new()
        } else {
            proof {
                assert(self.finalized_checkpoint.epoch < self.checkpoints@.len());
                if self.blocks@.len() > 0 {
                    vstd::arithmetic::div_mod::lemma_div_is_ordered(
                        self.blocks@.last().slot as int,
                        u64::MAX as int,
                        SLOTS_PER_EPOCH as int,
                    );
                }
            }
            let latest_finalized_slot = compute_start_slot_at_epoch(
                self.finalized_checkpoint.epoch,
            );
            let ghost bound = spec_start_slot_at_epoch(self.finalized_checkpoint.epoch);
            let mut finalized_blocks: Vec<BeaconBlock> = Vec::new();
            let mut i: usize = 0;
            while i < self.blocks.len()
                invariant
                    self.wf(),
                    0 <= i <= self.blocks@.len(),
                    finalized_blocks@.len() <= i,
                    latest_finalized_slot == bound,
                    forall|j: int|
                        0 <= j < finalized_blocks@.len() ==> block_eq(
                            #[trigger] finalized_blocks@[j],
                            self.blocks@[j],
                        ) && self.blocks@[j].slot <= bound,
                    forall|j: int|
                        finalized_blocks@.len() <= j < i ==> (#[trigger] self.blocks@[j]).slot
                            > bound,
                decreases self.blocks@.len() - i,
            {
                if self.blocks[i].slot <= latest_finalized_slot {
                    proof {
                        if finalized_blocks@.len() < i {
                            assert(self.blocks@[finalized_blocks@.len() as int].slot
                                < self.blocks@[i as int].slot);
                            assert(false);
                        }
                    }
                    finalized_blocks.push(self.blocks[i].clone());
                }
                i = i + 1;
            }
            finalized_blocks
        }
    }

    /// Publish a shard header in the global subnet: headers of the chain's
    /// epoch join the current pool, headers one epoch behind join the
    /// previous pool, anything else is dropped.
    pub fn publish_shard_header(&mut self, header: SignedShardHeader)
        requires
            old(self).wf(),
            header.message.commitment.length <= MAX_POINTS_PER_BLOCK,
        ensures
            final(self).wf(),
            final(self).slot == old(self).slot,
            final(self).state == old(self).state,
            final(self).finalized_checkpoint == old(self).finalized_checkpoint,
            final(self).blocks == old(self).blocks,
            final(self).states == old(self).states,
            final(self).checkpoints == old(self).checkpoints,
            spec_epoch_at_slot(header.message.slot) == spec_epoch_at_slot(old(self).slot)
                ==> final(self).current_epoch_shard_header_pool@ == old(self).current_epoch_shard_header_pool@.push(header) && final(self).previous_epoch_shard_header_pool == old(self).previous_epoch_shard_header_pool,
            spec_epoch_at_slot(header.message.slot) + 1 == spec_epoch_at_slot(old(self).slot)
                ==> final(self).previous_epoch_shard_header_pool@ == old(self).previous_epoch_shard_header_pool@.push(header) && final(self).current_epoch_shard_header_pool == old(self).current_epoch_shard_header_pool,
            spec_epoch_at_slot(header.message.slot) != spec_epoch_at_slot(old(self).slot)
                && spec_epoch_at_slot(header.message.slot) + 1 != spec_epoch_at_slot(old(self).slot)
                ==> final(self).current_epoch_shard_header_pool == old(self).current_epoch_shard_header_pool && final(self).previous_epoch_shard_header_pool
                == old(self).previous_epoch_shard_header_pool,
    {
        let header_epoch = compute_epoch_at_slot(header.message.slot);
        let current_epoch = compute_epoch_at_slot(self.slot);
        if header_epoch == current_epoch {
            self.current_epoch_shard_header_pool.push(header);
        } else if header_epoch + 1 == current_epoch {
            self.previous_epoch_shard_header_pool.push(header);
        }
    }
}

/// Take at most `k` headers off the front of `pool`, leaving the rest.
fn take_upto(pool: &mut Vec<SignedShardHeader>, k: usize) -> (taken: Vec<SignedShardHeader>)
    ensures
        taken@ == spec_take_upto(old(pool)@, k as int),
        final(pool)@ == old(pool)@.skip(taken@.len() as int),
{
    let m: usize = if pool.len() <= k {
        pool.len()
    } else {
        k
    };
    let mut taken: Vec<SignedShardHeader> = Vec::new();
    let mut i: usize = 0;
    while i < m
        invariant
            0 <= i <= m <= pool@.len(),
            pool@ == old(pool)@,
            taken@ == pool@.take(m as int).take(i as int),
        decreases m - i,
    {
        proof {
            assert(pool@.take(m as int).take(i as int + 1) =~= pool@.take(m as int).take(
                i as int,
            ).push(pool@[i as int]));
        }
        taken.push(pool[i]);
        i = i + 1;
    }
    let rest = pool.split_off(m);
    *pool = rest;
    proof {
        assert(taken@ =~= spec_take_upto(old(pool)@, k as int));
        assert(pool@ =~= old(pool)@.skip(taken@.len() as int));
    }
    taken
}


// ---------------------------------------------------------------------------
// The slot transition, as a relation between the chain before and after.
// ---------------------------------------------------------------------------

/// How one slot of processing changes the beacon chain, with `extra` the
/// headers published into the current-epoch pool since `pre` was taken.
///
/// In order: headers are drained from the pools (previous epoch first, at
/// most `MAX_SHARD_HEADERS` in all) and recorded as pending in the state;
/// a block carrying them is appended and checkpoints are back-filled up to
/// its epoch; finality advances to the grandparent epoch's checkpoint; at an
/// epoch boundary the gas price is updated and the epoch lists rotate; the
/// slot advances.
pub open spec fn beacon_step_ok(
    pre: BeaconChain,
    extra: Seq<SignedShardHeader>,
    post: BeaconChain,
    params: BeaconSimulationParams,
) -> bool {
    let prev_pool0 = pre.previous_epoch_shard_header_pool@;
    let cur_pool0 = pre.current_epoch_shard_header_pool@ + extra;
    let proposed = params.beacon_block_proposed;
    let drains = proposed && params.shard_headers_included;
    let ip = if drains {
        spec_take_upto(prev_pool0, MAX_SHARD_HEADERS as int)
    } else {
        Seq::<SignedShardHeader>::empty()
    };
    let ic = if drains {
        spec_take_upto(cur_pool0, spec_remaining_quota(prev_pool0))
    } else {
        Seq::<SignedShardHeader>::empty()
    };
    let prev_pool1 = if drains {
        prev_pool0.skip(ip.len() as int)
    } else {
        prev_pool0
    };
    let cur_pool1 = if drains {
        cur_pool0.skip(ic.len() as int)
    } else {
        cur_pool0
    };
    let prev_pend1 = if proposed {
        let base = pre.state.previous_epoch_pending_shard_headers@ + spec_pendings_of(ip);
        if params.shard_headers_confirmed {
            spec_confirm_all(base)
        } else {
            base
        }
    } else {
        pre.state.previous_epoch_pending_shard_headers@
    };
    let cur_pend1 = if proposed {
        let base = pre.state.current_epoch_pending_shard_headers@ + spec_pendings_of(ic);
        if params.shard_headers_confirmed {
            spec_confirm_all(base)
        } else {
            base
        }
    } else {
        pre.state.current_epoch_pending_shard_headers@
    };
    let fin1 = if proposed {
        pre.finalized_checkpoint
    } else {
        pre.state.finalized_checkpoint
    };
    let e_now = spec_epoch_at_slot(pre.slot) as int;
    let boundary = (pre.slot + 1) % (SLOTS_PER_EPOCH as int) == 0;
    let gas2 = if boundary {
        spec_epoch_gas_update(prev_pend1, pre.state.shard_gasprice, pre.slot)
    } else {
        pre.state.shard_gasprice
    };
    &&& post.slot == pre.slot + 1
    &&& post.state.slot == post.slot
    &&& post.state.finalized_checkpoint == fin1
    &&& post.state.previous_epoch_pending_shard_headers@ == (if boundary {
        cur_pend1
    } else {
        prev_pend1
    })
    &&& post.state.current_epoch_pending_shard_headers@ == (if boundary {
        Seq::<PendingShardHeader>::empty()
    } else {
        cur_pend1
    })
    &&& post.state.shard_gasprice == gas2
    &&& post.previous_epoch_shard_header_pool@ == (if boundary {
        cur_pool1
    } else {
        prev_pool1
    })
    &&& post.current_epoch_shard_header_pool@ == (if boundary {
        Seq::<SignedShardHeader>::empty()
    } else {
        cur_pool1
    })
    &&& (if proposed {
        &&& post.blocks@.len() == pre.blocks@.len() + 1
        &&& post.blocks@.take(pre.blocks@.len() as int) == pre.blocks@
        &&& post.blocks@.last().slot == pre.slot
        &&& post.blocks@.last().parent_root == (if pre.blocks@.len() == 0 {
            spec_zero_root()
        } else {
            spec_block_root(pre.blocks@.last())
        })
        &&& post.blocks@.last().state_root == spec_state_root_parts(
            pre.slot,
            fin1,
            prev_pend1,
            cur_pend1,
            pre.state.shard_gasprice,
        )
        &&& post.blocks@.last().shard_headers@ == ip + ic
        &&& post.states@.len() == pre.states@.len() + 1
        &&& post.states@.take(pre.states@.len() as int) == pre.states@
        &&& post.states@.last().slot == pre.slot
        &&& post.states@.last().finalized_checkpoint == fin1
        &&& post.states@.last().previous_epoch_pending_shard_headers@ == prev_pend1
        &&& post.states@.last().current_epoch_pending_shard_headers@ == cur_pend1
        &&& post.states@.last().shard_gasprice == pre.state.shard_gasprice
        &&& post.checkpoints@.len() == vstd::math::max(pre.checkpoints@.len() as int, e_now + 1)
        &&& post.checkpoints@.take(pre.checkpoints@.len() as int) == pre.checkpoints@
        &&& forall|e: int|
            pre.checkpoints@.len() <= e < post.checkpoints@.len()
                ==> (#[trigger] post.checkpoints@[e]) == (Checkpoint {
                epoch: e as u64,
                root: spec_block_root(post.blocks@.last()),
            })
    } else {
        &&& post.blocks == pre.blocks
        &&& post.states == pre.states
        &&& post.checkpoints == pre.checkpoints
    })
    &&& {
        let can = params.beacon_chain_finalized && e_now >= 2;
        let te = e_now - 2;
        if can && (pre.finalized_checkpoint == spec_genesis_checkpoint()
            || pre.finalized_checkpoint.epoch < te) && post.checkpoints@.len() > te {
            post.finalized_checkpoint == post.checkpoints@[te]
        } else {
            post.finalized_checkpoint == pre.finalized_checkpoint
        }
    }
}

/// Crossing a slot: the epoch advances exactly at slot numbers one below a
/// multiple of `SLOTS_PER_EPOCH`.
pub proof fn lemma_epoch_step(s: u64)
    requires
        s < u64::MAX,
    ensures
        (s + 1) % (SLOTS_PER_EPOCH as int) == 0 ==> spec_epoch_at_slot((s + 1) as u64)
            == spec_epoch_at_slot(s) + 1,
        (s + 1) % (SLOTS_PER_EPOCH as int) != 0 ==> spec_epoch_at_slot((s + 1) as u64)
            == spec_epoch_at_slot(s),
        (s + 1) % (SLOTS_PER_EPOCH as int) != 0 ==> (s + 1) % (SLOTS_PER_EPOCH as int) == (
        s as int) % (SLOTS_PER_EPOCH as int) + 1,
        0 <= (s as int) % (SLOTS_PER_EPOCH as int) < SLOTS_PER_EPOCH,
        SLOTS_PER_EPOCH * spec_epoch_at_slot(s) <= s,
{
    let n = SLOTS_PER_EPOCH as int;
    let q = s as int / n;
    let r = s as int % n;
    vstd::arithmetic::div_mod::lemma_fundamental_div_mod(s as int, n);
    vstd::arithmetic::div_mod::lemma_mod_bound(s as int, n);
    if r == n - 1 {
        vstd::arithmetic::div_mod::lemma_fundamental_div_mod_converse(s as int + 1, n, q + 1, 0);
    } else {
        vstd::arithmetic::div_mod::lemma_fundamental_div_mod_converse(s as int + 1, n, q, r + 1);
    }
}

// ---------------------------------------------------------------------------
// Slot processing.
// ---------------------------------------------------------------------------

/// Mark every pending header of `v` confirmed.
fn confirm_all(v: &mut Vec<PendingShardHeader>)
    ensures
        final(v)@ == spec_confirm_all(old(v)@),
{
    let mut out: Vec<PendingShardHeader> = Vec::new();
    let mut i: usize = 0;
    while i < v.len()
        invariant
            0 <= i <= v@.len(),
            v@ == old(v)@,
            out@ == spec_confirm_all(v@.take(i as int)),
        decreases v@.len() - i,
    {
        let mut p = v[i];
        p.confirmed = true;
        out.push(p);
        proof {
            assert(out@ =~= spec_confirm_all(v@.take(i as int + 1)));
        }
        i = i + 1;
    }
    proof {
        assert(v@.take(v@.len() as int) =~= v@);
    }
    *v = out;
}

/// The first confirmed pending header matching `(slot, shard)`, by its
/// commitment length.
fn find_confirmed_length(headers: &Vec<PendingShardHeader>, slot: u64, shard: u64) -> (r: Option<
    u64,
>)
    ensures
        r == match spec_find_confirmed(headers@, slot, shard) {
            Some(h) => Some(h.commitment.length),
            None => None::<u64>,
        },
{
    let mut i: usize = 0;
    proof {
        assert(headers@.skip(0) =~= headers@);
    }
    while i < headers.len()
        invariant
            0 <= i <= headers@.len(),
            spec_find_confirmed(headers@.skip(i as int), slot, shard) == spec_find_confirmed(
                headers@,
                slot,
                shard,
            ),
        decreases headers@.len() - i,
    {
        proof {
            assert(headers@.skip(i as int)[0] == headers@[i as int]);
            assert(headers@.skip(i as int).drop_first() =~= headers@.skip(i as int + 1));
        }
        if headers[i].slot == slot && headers[i].shard == shard && headers[i].confirmed {
            return Some(headers[i].commitment.length);
        }
        i = i + 1;
    }
    None
}

impl BeaconChain {
    /// Drain the shard headers to be included in this slot's block:
    /// previous-epoch headers first, then current-epoch headers, at most
    /// `MAX_SHARD_HEADERS` in all, in FIFO order.
    fn select_included_shard_headers(&mut self, shard_headers_included: bool) -> (r: (
        Vec<SignedShardHeader>,
        Vec<SignedShardHeader>,
    ))
        ensures
            final(self).slot == old(self).slot,
            final(self).state == old(self).state,
            final(self).finalized_checkpoint == old(self).finalized_checkpoint,
            final(self).blocks == old(self).blocks,
            final(self).states == old(self).states,
            final(self).checkpoints == old(self).checkpoints,
            shard_headers_included ==> {
                &&& r.0@ == spec_take_upto(
                    old(self).previous_epoch_shard_header_pool@,
                    MAX_SHARD_HEADERS as int,
                )
                &&& r.1@ == spec_take_upto(
                    old(self).current_epoch_shard_header_pool@,
                    spec_remaining_quota(old(self).previous_epoch_shard_header_pool@),
                )
                &&& final(self).previous_epoch_shard_header_pool@ == old(
                    self,
                ).previous_epoch_shard_header_pool@.skip(r.0@.len() as int)
                &&& final(self).current_epoch_shard_header_pool@ == old(
                    self,
                ).current_epoch_shard_header_pool@.skip(r.1@.len() as int)
            },
            !shard_headers_included ==> {
                &&& r.0@.len() == 0
                &&& r.1@.len() == 0
                &&& final(self).previous_epoch_shard_header_pool == old(
                    self,
                ).previous_epoch_shard_header_pool
                &&& final(self).current_epoch_shard_header_pool == old(
                    self,
                ).current_epoch_shard_header_pool
            },
    {
        if shard_headers_included {
            let ip = take_upto(&mut self.previous_epoch_shard_header_pool, MAX_SHARD_HEADERS
                as usize);
            let quota: usize = MAX_SHARD_HEADERS as usize - ip.len();
            let ic = take_upto(&mut self.current_epoch_shard_header_pool, quota);
            (ip, ic)
        } else {
            (Vec::new(), Vec::new())
        }
    }

    /// Record the included headers as pending in the state, confirming every
    /// pending entry when confirmation is on.
    fn update_pending_shard_headers(
        &mut self,
        included_previous: &Vec<SignedShardHeader>,
        included_current: &Vec<SignedShardHeader>,
        shard_headers_confirmed: bool,
    )
        ensures
            final(self).slot == old(self).slot,
            final(self).finalized_checkpoint == old(self).finalized_checkpoint,
            final(self).blocks == old(self).blocks,
            final(self).states == old(self).states,
            final(self).checkpoints == old(self).checkpoints,
            final(self).previous_epoch_shard_header_pool == old(
                self,
            ).previous_epoch_shard_header_pool,
            final(self).current_epoch_shard_header_pool == old(
                self,
            ).current_epoch_shard_header_pool,
            final(self).state.slot == old(self).state.slot,
            final(self).state.finalized_checkpoint == old(self).state.finalized_checkpoint,
            final(self).state.shard_gasprice == old(self).state.shard_gasprice,
            ({
                let base = old(self).state.previous_epoch_pending_shard_headers@
                    + spec_pendings_of(included_previous@);
                final(self).state.previous_epoch_pending_shard_headers@ == (
                if shard_headers_confirmed {
                    spec_confirm_all(base)
                } else {
                    base
                })
            }),
            ({
                let base = old(self).state.current_epoch_pending_shard_headers@
                    + spec_pendings_of(included_current@);
                final(self).state.current_epoch_pending_shard_headers@ == (
                if shard_headers_confirmed {
                    spec_confirm_all(base)
                } else {
                    base
                })
            }),
    {
        let ghost prev0 = self.state.previous_epoch_pending_shard_headers@;
        let mut i: usize = 0;
        while i < included_previous.len()
            invariant
                0 <= i <= included_previous@.len(),
                self.state.previous_epoch_pending_shard_headers@ == prev0 + spec_pendings_of(
                    included_previous@.take(i as int),
                ),
                self.state.current_epoch_pending_shard_headers
                    == old(self).state.current_epoch_pending_shard_headers,
                self.state.slot == old(self).state.slot,
                self.state.finalized_checkpoint == old(self).state.finalized_checkpoint,
                self.state.shard_gasprice == old(self).state.shard_gasprice,
                self.slot == old(self).slot,
                self.finalized_checkpoint == old(self).finalized_checkpoint,
                self.blocks == old(self).blocks,
                self.states == old(self).states,
                self.checkpoints == old(self).checkpoints,
                self.previous_epoch_shard_header_pool == old(
                    self,
                ).previous_epoch_shard_header_pool,
                self.current_epoch_shard_header_pool == old(self).current_epoch_shard_header_pool,
                prev0 == old(self).state.previous_epoch_pending_shard_headers@,
            decreases included_previous@.len() - i,
        {
            let p = PendingShardHeader::from_signed_shard_header(&included_previous[i]);
            self.state.previous_epoch_pending_shard_headers.push(p);
            proof {
                assert(self.state.previous_epoch_pending_shard_headers@ =~= prev0
                    + spec_pendings_of(included_previous@.take(i as int + 1)));
            }
            i = i + 1;
        }
        proof {
            assert(included_previous@.take(included_previous@.len() as int)
                =~= included_previous@);
        }
        let ghost cur0 = self.state.current_epoch_pending_shard_headers@;
        let mut j: usize = 0;
        while j < included_current.len()
            invariant
                0 <= j <= included_current@.len(),
                self.state.current_epoch_pending_shard_headers@ == cur0 + spec_pendings_of(
                    included_current@.take(j as int),
                ),
                self.state.previous_epoch_pending_shard_headers@ == prev0 + spec_pendings_of(
                    included_previous@,
                ),
                self.state.slot == old(self).state.slot,
                self.state.finalized_checkpoint == old(self).state.finalized_checkpoint,
                self.state.shard_gasprice == old(self).state.shard_gasprice,
                self.slot == old(self).slot,
                self.finalized_checkpoint == old(self).finalized_checkpoint,
                self.blocks == old(self).blocks,
                self.states == old(self).states,
                self.checkpoints == old(self).checkpoints,
                self.previous_epoch_shard_header_pool == old(
                    self,
                ).previous_epoch_shard_header_pool,
                self.current_epoch_shard_header_pool == old(self).current_epoch_shard_header_pool,
                prev0 == old(self).state.previous_epoch_pending_shard_headers@,
                cur0 == old(self).state.current_epoch_pending_shard_headers@,
            decreases included_current@.len() - j,
        {
            let p = PendingShardHeader::from_signed_shard_header(&included_current[j]);
            self.state.current_epoch_pending_shard_headers.push(p);
            proof {
                assert(self.state.current_epoch_pending_shard_headers@ =~= cur0
                    + spec_pendings_of(included_current@.take(j as int + 1)));
            }
            j = j + 1;
        }
        proof {
            assert(included_current@.take(included_current@.len() as int) =~= included_current@);
        }
        if shard_headers_confirmed {
            confirm_all(&mut self.state.previous_epoch_pending_shard_headers);
            confirm_all(&mut self.state.current_epoch_pending_shard_headers);
        }
    }

    /// Update the live state for the new block: record the included headers
    /// and copy the chain's finalized checkpoint into the state.
    fn update_state_for_new_block(
        &mut self,
        included_previous: &Vec<SignedShardHeader>,
        included_current: &Vec<SignedShardHeader>,
        shard_headers_confirmed: bool,
    )
        ensures
            final(self).slot == old(self).slot,
            final(self).finalized_checkpoint == old(self).finalized_checkpoint,
            final(self).blocks == old(self).blocks,
            final(self).states == old(self).states,
            final(self).checkpoints == old(self).checkpoints,
            final(self).previous_epoch_shard_header_pool == old(
                self,
            ).previous_epoch_shard_header_pool,
            final(self).current_epoch_shard_header_pool == old(
                self,
            ).current_epoch_shard_header_pool,
            final(self).state.slot == old(self).state.slot,
            final(self).state.finalized_checkpoint == old(self).finalized_checkpoint,
            final(self).state.shard_gasprice == old(self).state.shard_gasprice,
            ({
                let base = old(self).state.previous_epoch_pending_shard_headers@
                    + spec_pendings_of(included_previous@);
                final(self).state.previous_epoch_pending_shard_headers@ == (
                if shard_headers_confirmed {
                    spec_confirm_all(base)
                } else {
                    base
                })
            }),
            ({
                let base = old(self).state.current_epoch_pending_shard_headers@
                    + spec_pendings_of(included_current@);
                final(self).state.current_epoch_pending_shard_headers@ == (
                if shard_headers_confirmed {
                    spec_confirm_all(base)
                } else {
                    base
                })
            }),
    {
        self.update_pending_shard_headers(
            included_previous,
            included_current,
            shard_headers_confirmed,
        );
        self.state.finalized_checkpoint = self.finalized_checkpoint;
    }

    /// Build this slot's block from the live state, back-fill a checkpoint
    /// for every epoch up to the block's, and append the block and a state
    /// snapshot to the history.
    fn append_new_block_to_chain(&mut self, included_shard_headers: Vec<SignedShardHeader>)
        requires
            checkpoints_ok(old(self).checkpoints@, old(self).blocks@),
            blocks_slots_ok(old(self).blocks@, old(self).slot),
            old(self).slot < usize::MAX as u64,
        ensures
            final(self).slot == old(self).slot,
            final(self).state == old(self).state,
            final(self).finalized_checkpoint == old(self).finalized_checkpoint,
            final(self).previous_epoch_shard_header_pool == old(
                self,
            ).previous_epoch_shard_header_pool,
            final(self).current_epoch_shard_header_pool == old(
                self,
            ).current_epoch_shard_header_pool,
            final(self).blocks@.len() == old(self).blocks@.len() + 1,
            final(self).blocks@.take(old(self).blocks@.len() as int) == old(self).blocks@,
            final(self).blocks@.last().slot == old(self).slot,
            final(self).blocks@.last().parent_root == (if old(self).blocks@.len() == 0 {
                spec_zero_root()
            } else {
                spec_block_root(old(self).blocks@.last())
            }),
            final(self).blocks@.last().state_root == spec_state_root_parts(
                old(self).state.slot,
                old(self).state.finalized_checkpoint,
                old(self).state.previous_epoch_pending_shard_headers@,
                old(self).state.current_epoch_pending_shard_headers@,
                old(self).state.shard_gasprice,
            ),
            final(self).blocks@.last().shard_headers@ == included_shard_headers@,
            final(self).states@.len() == old(self).states@.len() + 1,
            final(self).states@.take(old(self).states@.len() as int) == old(self).states@,
            state_eq(final(self).states@.last(), old(self).state),
            final(self).checkpoints@.len() == vstd::math::max(
                old(self).checkpoints@.len() as int,
                spec_epoch_at_slot(old(self).slot) + 1,
            ),
            final(self).checkpoints@.take(old(self).checkpoints@.len() as int) == old(
                self,
            ).checkpoints@,
            forall|e: int|
                old(self).checkpoints@.len() <= e < final(self).checkpoints@.len()
                    ==> (#[trigger] final(self).checkpoints@[e]) == (Checkpoint {
                    epoch: e as u64,
                    root: spec_block_root(final(self).blocks@.last()),
                }),
    {
        let parent_root = if self.blocks.len() == 0 {
            crate::eth2_types::Root::zero()
        } else {
            self.blocks[self.blocks.len() - 1].header().root()
        };
        let state_root = self.state.root();
        let new_block = BeaconBlock {
            slot: self.slot,
            parent_root,
            state_root,
            shard_headers: included_shard_headers,
        };
        let new_root = new_block.header().root();
        let current_epoch = compute_epoch_at_slot(self.slot);
        proof {
            if self.blocks@.len() > 0 {
                vstd::arithmetic::div_mod::lemma_div_is_ordered(
                    self.blocks@.last().slot as int,
                    self.slot as int,
                    SLOTS_PER_EPOCH as int,
                );
            }
        }
        while self.checkpoints.len() < current_epoch as usize + 1
            invariant
                current_epoch == spec_epoch_at_slot(old(self).slot),
                current_epoch <= old(self).slot < usize::MAX as u64,
                new_root == spec_block_root(new_block),
                self.slot == old(self).slot,
                self.state == old(self).state,
                self.finalized_checkpoint == old(self).finalized_checkpoint,
                self.blocks == old(self).blocks,
                self.states == old(self).states,
                self.previous_epoch_shard_header_pool == old(
                    self,
                ).previous_epoch_shard_header_pool,
                self.current_epoch_shard_header_pool == old(self).current_epoch_shard_header_pool,
                old(self).checkpoints@.len() <= self.checkpoints@.len() <= current_epoch + 1,
                self.checkpoints@.take(old(self).checkpoints@.len() as int) == old(
                    self,
                ).checkpoints@,
                forall|e: int|
                    old(self).checkpoints@.len() <= e < self.checkpoints@.len()
                        ==> (#[trigger] self.checkpoints@[e]) == (Checkpoint {
                        epoch: e as u64,
                        root: spec_block_root(new_block),
                    }),
            decreases current_epoch + 1 - self.checkpoints@.len(),
        {
            let e = self.checkpoints.len() as u64;
            let ghost cps_before = self.checkpoints@;
            self.checkpoints.push(Checkpoint { epoch: e, root: new_root });
            proof {
                assert(self.checkpoints@.take(old(self).checkpoints@.len() as int) =~= old(
                    self,
                ).checkpoints@);
                assert(new_root == spec_block_root(new_block));
                assert forall|e2: int|
                    old(self).checkpoints@.len() <= e2 < self.checkpoints@.len() implies (
                #[trigger] self.checkpoints@[e2]) == (Checkpoint {
                    epoch: e2 as u64,
                    root: spec_block_root(new_block),
                }) by {
                    if e2 < cps_before.len() {
                        assert(self.checkpoints@[e2] == cps_before[e2]);
                    } else {
                        assert(self.checkpoints@[e2] == (Checkpoint { epoch: e, root: new_root }));
                    }
                }
            }
        }
        self.blocks.push(new_block);
        self.states.push(self.state.clone());
        proof {
            assert(final(self).blocks@.take(old(self).blocks@.len() as int)
                =~= old(self).blocks@);
            assert(final(self).states@.take(old(self).states@.len() as int)
                =~= old(self).states@);
        }
    }

    /// Advance off-chain finality: once the chain is two epochs past an
    /// epoch with a checkpoint, that checkpoint becomes finalized, provided
    /// finality has not already reached it.
    fn progress_consensus(&mut self)
        requires
            old(self).slot < usize::MAX as u64,
        ensures
            final(self).slot == old(self).slot,
            final(self).state == old(self).state,
            final(self).blocks == old(self).blocks,
            final(self).states == old(self).states,
            final(self).checkpoints == old(self).checkpoints,
            final(self).previous_epoch_shard_header_pool == old(
                self,
            ).previous_epoch_shard_header_pool,
            final(self).current_epoch_shard_header_pool == old(
                self,
            ).current_epoch_shard_header_pool,
            ({
                let e_now = spec_epoch_at_slot(old(self).slot) as int;
                let te = e_now - 2;
                if e_now >= 2 && (old(self).finalized_checkpoint == spec_genesis_checkpoint()
                    || old(self).finalized_checkpoint.epoch < te) && old(self).checkpoints@.len()
                    > te {
                    final(self).finalized_checkpoint == old(self).checkpoints@[te]
                } else {
                    final(self).finalized_checkpoint == old(self).finalized_checkpoint
                }
            }),
    {
        let current_epoch = compute_epoch_at_slot(self.slot);
        if current_epoch < 2 {
            return ;
        }
        let finalized_epoch = current_epoch - 2;
        let is_genesis = self.finalized_is_genesis();
        if (is_genesis || self.finalized_checkpoint.epoch < finalized_epoch)
            && self.checkpoints.len() > finalized_epoch as usize {
            proof {
                assert(finalized_epoch < self.checkpoints@.len());
            }
            self.finalized_checkpoint = self.checkpoints[finalized_epoch as usize];
        }
    }

    /// Fold the gas-price update over every (slot, shard) pair of the
    /// previous epoch that has a confirmed pending header.
    fn update_shard_gasprice(&mut self)
        requires
            old(self).state.shard_gasprice <= MAX_GASPRICE,
            pending_lengths_ok(old(self).state.previous_epoch_pending_shard_headers@),
        ensures
            final(self).slot == old(self).slot,
            final(self).finalized_checkpoint == old(self).finalized_checkpoint,
            final(self).blocks == old(self).blocks,
            final(self).states == old(self).states,
            final(self).checkpoints == old(self).checkpoints,
            final(self).previous_epoch_shard_header_pool == old(
                self,
            ).previous_epoch_shard_header_pool,
            final(self).current_epoch_shard_header_pool == old(
                self,
            ).current_epoch_shard_header_pool,
            final(self).state.slot == old(self).state.slot,
            final(self).state.finalized_checkpoint == old(self).state.finalized_checkpoint,
            final(self).state.previous_epoch_pending_shard_headers == old(
                self,
            ).state.previous_epoch_pending_shard_headers,
            final(self).state.current_epoch_pending_shard_headers == old(
                self,
            ).state.current_epoch_pending_shard_headers,
            final(self).state.shard_gasprice == spec_epoch_gas_update(
                old(self).state.previous_epoch_pending_shard_headers@,
                old(self).state.shard_gasprice,
                old(self).slot,
            ),
            final(self).state.shard_gasprice <= MAX_GASPRICE,
    {
        let current_epoch = compute_epoch_at_slot(self.slot);
        if current_epoch == GENESIS_EPOCH {
            return ;
        }
        proof {
            vstd::arithmetic::div_mod::lemma_div_is_ordered(
                self.slot as int,
                u64::MAX as int,
                SLOTS_PER_EPOCH as int,
            );
            lemma_epoch_step_start(self.slot);
        }
        let ghost headers = self.state.previous_epoch_pending_shard_headers@;
        let ghost g0 = self.state.shard_gasprice;
        let previous_epoch_start_slot = compute_start_slot_at_epoch(current_epoch - 1);
        let ghost start = previous_epoch_start_slot;
        let mut g: u64 = self.state.shard_gasprice;
        let mut i: u64 = 0;
        while i < SLOTS_PER_EPOCH
            invariant
                0 <= i <= SLOTS_PER_EPOCH,
                g <= MAX_GASPRICE,
                pending_lengths_ok(headers),
                headers == self.state.previous_epoch_pending_shard_headers@,
                start == previous_epoch_start_slot,
                start + SLOTS_PER_EPOCH <= u64::MAX,
                spec_gas_slots_fold(headers, g, start, i as int) == spec_gas_slots_fold(
                    headers,
                    g0,
                    start,
                    0,
                ),
            decreases SLOTS_PER_EPOCH - i,
        {
            let slot_i: u64 = previous_epoch_start_slot + i;
            let ghost g_enter = g;
            let mut k: u64 = 0;
            while k < SHARD_NUM
                invariant
                    0 <= k <= SHARD_NUM,
                    g <= MAX_GASPRICE,
                    pending_lengths_ok(headers),
                    headers == self.state.previous_epoch_pending_shard_headers@,
                    slot_i == start + i,
                    spec_gas_shard_fold(headers, g, slot_i, k as int) == spec_gas_shard_fold(
                        headers,
                        g_enter,
                        slot_i,
                        0,
                    ),
                decreases SHARD_NUM - k,
            {
                let found = find_confirmed_length(
                    &self.state.previous_epoch_pending_shard_headers,
                    slot_i,
                    k,
                );
                match found {
                    Some(length) => {
                        proof {
                            lemma_find_confirmed_is_entry(headers, slot_i, k);
                        }
                        g = compute_updated_gasprice(g, length);
                    },
                    None => {},
                }
                k = k + 1;
            }
            i = i + 1;
        }
        self.state.shard_gasprice = g;
    }

    /// At the end of an epoch: update the gas price, rotate the pending
    /// lists, and rotate the header pools.
    fn process_epoch(&mut self)
        requires
            old(self).state.shard_gasprice <= MAX_GASPRICE,
            pending_lengths_ok(old(self).state.previous_epoch_pending_shard_headers@),
        ensures
            final(self).slot == old(self).slot,
            final(self).finalized_checkpoint == old(self).finalized_checkpoint,
            final(self).blocks == old(self).blocks,
            final(self).states == old(self).states,
            final(self).checkpoints == old(self).checkpoints,
            final(self).state.slot == old(self).state.slot,
            final(self).state.finalized_checkpoint == old(self).state.finalized_checkpoint,
            final(self).state.previous_epoch_pending_shard_headers@ == old(
                self,
            ).state.current_epoch_pending_shard_headers@,
            final(self).state.current_epoch_pending_shard_headers@ == Seq::<
                PendingShardHeader,
            >::empty(),
            final(self).state.shard_gasprice == spec_epoch_gas_update(
                old(self).state.previous_epoch_pending_shard_headers@,
                old(self).state.shard_gasprice,
                old(self).slot,
            ),
            final(self).state.shard_gasprice <= MAX_GASPRICE,
            final(self).previous_epoch_shard_header_pool@ == old(
                self,
            ).current_epoch_shard_header_pool@,
            final(self).current_epoch_shard_header_pool@ == Seq::<SignedShardHeader>::empty(),
    {
        self.update_shard_gasprice();
        core::mem::swap(
            &mut self.state.previous_epoch_pending_shard_headers,
            &mut self.state.current_epoch_pending_shard_headers,
        );
        self.state.current_epoch_pending_shard_headers.clear();
        core::mem::swap(
            &mut self.previous_epoch_shard_header_pool,
            &mut self.current_epoch_shard_header_pool,
        );
        self.current_epoch_shard_header_pool.clear();
    }
}

/// The elements drained by the scheduler are a prefix of the pool.
pub proof fn lemma_take_upto_props(s: Seq<SignedShardHeader>, k: int)
    requires
        k >= 0,
    ensures
        spec_take_upto(s, k).len() == (if s.len() <= k {
            s.len() as int
        } else {
            k
        }),
        forall|i: int|
            0 <= i < spec_take_upto(s, k).len() ==> #[trigger] spec_take_upto(s, k)[i] == s[i],
{
}

/// The pending forms keep length and map each header pointwise.
pub proof fn lemma_pendings_props(hs: Seq<SignedShardHeader>)
    ensures
        spec_pendings_of(hs).len() == hs.len(),
        forall|i: int|
            0 <= i < hs.len() ==> #[trigger] spec_pendings_of(hs)[i] == spec_pending_of(hs[i]),
{
}

/// Confirming keeps length and every field but `confirmed`.
pub proof fn lemma_confirm_all_props(ps: Seq<PendingShardHeader>)
    ensures
        spec_confirm_all(ps).len() == ps.len(),
        forall|i: int|
            0 <= i < ps.len() ==> #[trigger] spec_confirm_all(ps)[i] == (PendingShardHeader {
                confirmed: true,
                ..ps[i]
            }),
{
}

impl BeaconChain {
    /// Process one slot: drain and record headers, append the block and its
    /// state snapshot with checkpoint back-fill, advance finality, run the
    /// epoch boundary, and move to the next slot — each step as enabled by
    /// `params`. The transition is exactly `beacon_step_ok`; the chain
    /// invariant `wf` is preserved and the finalized epoch never decreases.
    pub fn process_slot(&mut self, params: &BeaconSimulationParams)
        requires
            old(self).wf(),
            old(self).slot + 1 < usize::MAX as u64,
        ensures
            final(self).wf(),
            beacon_step_ok(*old(self), Seq::<SignedShardHeader>::empty(), *final(self), *params),
            final(self).finalized_checkpoint.epoch >= old(self).finalized_checkpoint.epoch,
    {
        let ghost pre = *old(self);
        proof {
            assert(pre.current_epoch_shard_header_pool@ + Seq::<SignedShardHeader>::empty()
                =~= pre.current_epoch_shard_header_pool@);
        }
        let ghost mut ip_g: Seq<SignedShardHeader> = Seq::empty();
        let ghost mut ic_g: Seq<SignedShardHeader> = Seq::empty();
        if params.beacon_block_proposed {
            let (included_previous, mut included_current) = self.select_included_shard_headers(
                params.shard_headers_included,
            );
            proof {
                ip_g = included_previous@;
                ic_g = included_current@;
            }
            self.update_state_for_new_block(
                &included_previous,
                &included_current,
                params.shard_headers_confirmed,
            );
            let mut included = included_previous;
            included.append(&mut included_current);
            proof {
                assert(included@ == ip_g + ic_g) by {};
            }
            self.append_new_block_to_chain(included);
        }
        if params.beacon_chain_finalized {
            self.progress_consensus();
        }
        if (self.slot + 1) % SLOTS_PER_EPOCH == 0 {
            proof {
                assert(pending_lengths_ok(
                    self.state.previous_epoch_pending_shard_headers@,
                )) by {
                    if params.beacon_block_proposed {
                        lemma_take_upto_props(
                            pre.previous_epoch_shard_header_pool@,
                            MAX_SHARD_HEADERS as int,
                        );
                        lemma_pendings_props(ip_g);
                        lemma_confirm_all_props(
                            pre.state.previous_epoch_pending_shard_headers@ + spec_pendings_of(
                                ip_g,
                            ),
                        );
                    }
                };
            }
            self.process_epoch();
        }
        self.slot = self.slot + 1;
        self.state.slot = self.slot;
        proof {
            let post = *self;
            let extra = Seq::<SignedShardHeader>::empty();
            let prev_pool0 = pre.previous_epoch_shard_header_pool@;
            let cur_pool0 = pre.current_epoch_shard_header_pool@ + extra;
            let proposed = params.beacon_block_proposed;
            let drains = proposed && params.shard_headers_included;
            let ip = if drains {
                spec_take_upto(prev_pool0, MAX_SHARD_HEADERS as int)
            } else {
                Seq::<SignedShardHeader>::empty()
            };
            let ic = if drains {
                spec_take_upto(cur_pool0, spec_remaining_quota(prev_pool0))
            } else {
                Seq::<SignedShardHeader>::empty()
            };
            let prev_pend1 = if proposed {
                let base = pre.state.previous_epoch_pending_shard_headers@ + spec_pendings_of(ip);
                if params.shard_headers_confirmed {
                    spec_confirm_all(base)
                } else {
                    base
                }
            } else {
                pre.state.previous_epoch_pending_shard_headers@
            };
            let cur_pend1 = if proposed {
                let base = pre.state.current_epoch_pending_shard_headers@ + spec_pendings_of(ic);
                if params.shard_headers_confirmed {
                    spec_confirm_all(base)
                } else {
                    base
                }
            } else {
                pre.state.current_epoch_pending_shard_headers@
            };
            let fin1 = if proposed {
                pre.finalized_checkpoint
            } else {
                pre.state.finalized_checkpoint
            };
            let boundary = (pre.slot + 1) % (SLOTS_PER_EPOCH as int) == 0;
            assert(cur_pool0 == pre.current_epoch_shard_header_pool@) by {
                assert(cur_pool0 =~= pre.current_epoch_shard_header_pool@);
            };
            if drains {
                assert(ip == ip_g) by {};
                assert(ic == ic_g) by {};
            }
            assert(post.state.previous_epoch_pending_shard_headers@ == (if boundary {
                cur_pend1
            } else {
                prev_pend1
            })) by {};
            assert(post.state.current_epoch_pending_shard_headers@ == (if boundary {
                Seq::<PendingShardHeader>::empty()
            } else {
                cur_pend1
            })) by {};
            assert(post.state.shard_gasprice == (if boundary {
                spec_epoch_gas_update(prev_pend1, pre.state.shard_gasprice, pre.slot)
            } else {
                pre.state.shard_gasprice
            })) by {};
            assert(post.previous_epoch_shard_header_pool@ == (if boundary {
                if drains {
                    cur_pool0.skip(ic.len() as int)
                } else {
                    cur_pool0
                }
            } else {
                if drains {
                    prev_pool0.skip(ip.len() as int)
                } else {
                    prev_pool0
                }
            })) by {};
            assert(post.current_epoch_shard_header_pool@ == (if boundary {
                Seq::<SignedShardHeader>::empty()
            } else {
                if drains {
                    cur_pool0.skip(ic.len() as int)
                } else {
                    cur_pool0
                }
            })) by {};
            if proposed {
                assert(post.blocks@.len() == pre.blocks@.len() + 1) by {};
                assert(post.blocks@.take(pre.blocks@.len() as int) == pre.blocks@) by {};
                assert(post.blocks@.last().slot == pre.slot) by {};
                assert(post.blocks@.last().shard_headers@ == ip + ic) by {};
                assert(post.blocks@.last().state_root == spec_state_root_parts(
                    pre.slot,
                    fin1,
                    prev_pend1,
                    cur_pend1,
                    pre.state.shard_gasprice,
                )) by {};
                assert(post.states@.len() == pre.states@.len() + 1) by {};
                assert(post.checkpoints@.take(pre.checkpoints@.len() as int)
                    == pre.checkpoints@) by {};
            } else {
                assert(post.blocks == pre.blocks) by {};
                assert(post.states == pre.states) by {};
                assert(post.checkpoints == pre.checkpoints) by {};
            }
            assert(beacon_step_ok(pre, extra, post, *params)) by {};
            lemma_beacon_step_preserves_wf(pre, post, *params);
        }
    }
}

/// A `beacon_step_ok` transition out of a well-formed chain keeps the chain
/// well-formed, and the finalized epoch never decreases.
#[verifier::rlimit(100)]
pub proof fn lemma_beacon_step_preserves_wf(
    pre: BeaconChain,
    post: BeaconChain,
    params: BeaconSimulationParams,
)
    requires
        pre.wf(),
        pre.slot + 1 < usize::MAX as u64,
        beacon_step_ok(pre, Seq::<SignedShardHeader>::empty(), post, params),
    ensures
        post.wf(),
        post.finalized_checkpoint.epoch >= pre.finalized_checkpoint.epoch,
{
    lemma_epoch_step(pre.slot);
    let e_now = spec_epoch_at_slot(pre.slot);
    let extra = Seq::<SignedShardHeader>::empty();
    let prev_pool0 = pre.previous_epoch_shard_header_pool@;
    let cur_pool0 = pre.current_epoch_shard_header_pool@ + extra;
    assert(cur_pool0 =~= pre.current_epoch_shard_header_pool@);
    let proposed = params.beacon_block_proposed;
    let drains = proposed && params.shard_headers_included;
    let ip = if drains {
        spec_take_upto(prev_pool0, MAX_SHARD_HEADERS as int)
    } else {
        Seq::<SignedShardHeader>::empty()
    };
    let ic = if drains {
        spec_take_upto(cur_pool0, spec_remaining_quota(prev_pool0))
    } else {
        Seq::<SignedShardHeader>::empty()
    };
    let prev_pend1 = if proposed {
        let base = pre.state.previous_epoch_pending_shard_headers@ + spec_pendings_of(ip);
        if params.shard_headers_confirmed {
            spec_confirm_all(base)
        } else {
            base
        }
    } else {
        pre.state.previous_epoch_pending_shard_headers@
    };
    let cur_pend1 = if proposed {
        let base = pre.state.current_epoch_pending_shard_headers@ + spec_pendings_of(ic);
        if params.shard_headers_confirmed {
            spec_confirm_all(base)
        } else {
            base
        }
    } else {
        pre.state.current_epoch_pending_shard_headers@
    };
    lemma_take_upto_props(prev_pool0, MAX_SHARD_HEADERS as int);
    lemma_take_upto_props(cur_pool0, spec_remaining_quota(prev_pool0));
    lemma_pendings_props(ip);
    lemma_pendings_props(ic);
    lemma_confirm_all_props(
        pre.state.previous_epoch_pending_shard_headers@ + spec_pendings_of(ip),
    );
    lemma_confirm_all_props(pre.state.current_epoch_pending_shard_headers@ + spec_pendings_of(ic));
    assert forall|i: int| 0 <= i < prev_pend1.len() implies {
        let h = #[trigger] prev_pend1[i];
        &&& spec_epoch_at_slot(h.slot) + 1 == e_now
        &&& h.commitment.length <= MAX_POINTS_PER_BLOCK
    } by {
        if proposed {
            let base = pre.state.previous_epoch_pending_shard_headers@ + spec_pendings_of(ip);
            assert(0 <= i < base.len());
            if i < pre.state.previous_epoch_pending_shard_headers@.len() {
                assert(base[i] == pre.state.previous_epoch_pending_shard_headers@[i]);
            } else {
                let j = i - pre.state.previous_epoch_pending_shard_headers@.len();
                assert(base[i] == spec_pendings_of(ip)[j]);
                assert(spec_pendings_of(ip)[j] == spec_pending_of(ip[j]));
                assert(ip[j] == prev_pool0[j]);
            }
        }
    }
    assert forall|i: int| 0 <= i < cur_pend1.len() implies {
        let h = #[trigger] cur_pend1[i];
        &&& spec_epoch_at_slot(h.slot) == e_now
        &&& h.commitment.length <= MAX_POINTS_PER_BLOCK
    } by {
        if proposed {
            let base = pre.state.current_epoch_pending_shard_headers@ + spec_pendings_of(ic);
            assert(0 <= i < base.len());
            if i < pre.state.current_epoch_pending_shard_headers@.len() {
                assert(base[i] == pre.state.current_epoch_pending_shard_headers@[i]);
            } else {
                let j = i - pre.state.current_epoch_pending_shard_headers@.len();
                assert(base[i] == spec_pendings_of(ic)[j]);
                assert(spec_pendings_of(ic)[j] == spec_pending_of(ic[j]));
                assert(ic[j] == cur_pool0[j]);
            }
        }
    }
    if proposed {
        assert(forall|i: int|
            0 <= i < pre.blocks@.len() ==> (#[trigger] post.blocks@[i]) == pre.blocks@[i]) by {};
        assert(forall|i: int|
            0 <= i < pre.states@.len() ==> (#[trigger] post.states@[i]) == pre.states@[i]) by {};
        assert(forall|e: int|
            0 <= e < pre.checkpoints@.len() ==> (#[trigger] post.checkpoints@[e])
                == pre.checkpoints@[e]) by {};
    }
    assert(hash_chain_ok(post.blocks@)) by {
        if proposed && pre.blocks@.len() > 0 {
            assert(post.blocks@[post.blocks@.len() - 2] == pre.blocks@.last());
        }
    }
    assert(blocks_slots_ok(post.blocks@, post.slot)) by {};
    assert(checkpoints_ok(post.checkpoints@, post.blocks@)) by {
        if proposed && pre.blocks@.len() > 0 {
            vstd::arithmetic::div_mod::lemma_div_is_ordered(
                pre.blocks@.last().slot as int,
                pre.slot as int,
                SLOTS_PER_EPOCH as int,
            );
        }
    }
    assert(pending_headers_ok(post.state)) by {};
    assert(forall|i: int|
        0 <= i < post.states@.len() ==> pending_headers_ok(#[trigger] post.states@[i])
            && post.states@[i].slot == post.blocks@[i].slot) by {
        if proposed {
            assert(pending_headers_ok(post.states@.last()));
        }
    };
    assert(forall|i: int|
        0 <= i < post.blocks@.len() ==> block_headers_fresh_ok(#[trigger] post.blocks@[i])
            && post.blocks@[i].shard_headers@.len() <= MAX_SHARD_HEADERS) by {
        if proposed {
            let nb = post.blocks@.last();
            assert(block_headers_fresh_ok(nb)) by {
                assert forall|i: int| 0 <= i < nb.shard_headers@.len() implies {
                    let e = spec_epoch_at_slot((#[trigger] nb.shard_headers@[i]).message.slot);
                    e == spec_epoch_at_slot(nb.slot) || e + 1 == spec_epoch_at_slot(nb.slot)
                } by {
                    if i < ip.len() {
                        assert(nb.shard_headers@[i] == ip[i]);
                        assert(ip[i] == prev_pool0[i]);
                    } else {
                        assert(nb.shard_headers@[i] == ic[i - ip.len()]);
                        assert(ic[i - ip.len()] == cur_pool0[i - ip.len()]);
                    }
                }
            }
            assert(nb.shard_headers@.len() <= MAX_SHARD_HEADERS);
        }
    };
    assert(post.pools_ok()) by {};
    assert(post.state.shard_gasprice <= MAX_GASPRICE) by {
        if (pre.slot + 1) % (SLOTS_PER_EPOCH as int) == 0 {
            if spec_epoch_at_slot(pre.slot) != GENESIS_EPOCH {
                lemma_gas_slots_fold_bound(
                    prev_pend1,
                    pre.state.shard_gasprice,
                    spec_start_slot_at_epoch((spec_epoch_at_slot(pre.slot) - 1) as u64),
                    0,
                );
            }
        }
    };
    assert(post.finalized_checkpoint == spec_genesis_checkpoint() || (
    post.finalized_checkpoint.epoch < post.checkpoints@.len() && post.finalized_checkpoint
        == post.checkpoints@[post.finalized_checkpoint.epoch as int])) by {
        if post.finalized_checkpoint == pre.finalized_checkpoint {
            if pre.finalized_checkpoint != spec_genesis_checkpoint() {
                assert(post.checkpoints@[pre.finalized_checkpoint.epoch as int]
                    == pre.checkpoints@[pre.finalized_checkpoint.epoch as int]);
            }
        } else {
            let te = spec_epoch_at_slot(pre.slot) - 2;
            assert(post.finalized_checkpoint == post.checkpoints@[te as int]);
            assert(post.checkpoints@[te as int].epoch == te);
        }
    };
    assert(post.wf());
    assert(post.finalized_checkpoint.epoch >= pre.finalized_checkpoint.epoch) by {
        if post.finalized_checkpoint != pre.finalized_checkpoint {
            let te = spec_epoch_at_slot(pre.slot) - 2;
            assert(post.finalized_checkpoint.epoch == te);
            if pre.finalized_checkpoint != spec_genesis_checkpoint() {
                assert(pre.finalized_checkpoint.epoch < te);
            }
        }
    };
}

/// The first slot of an epoch is no later than any of its slots.
pub proof fn lemma_epoch_step_start(s: u64)
    requires
        spec_epoch_at_slot(s) >= 1,
    ensures
        spec_epoch_at_slot(s) - 1 <= u64::MAX / SLOTS_PER_EPOCH,
        spec_start_slot_at_epoch((spec_epoch_at_slot(s) - 1) as u64) + SLOTS_PER_EPOCH <= u64::MAX,
{
    let n = SLOTS_PER_EPOCH as int;
    vstd::arithmetic::div_mod::lemma_fundamental_div_mod(s as int, n);
    vstd::arithmetic::div_mod::lemma_mod_bound(s as int, n);
    vstd::arithmetic::div_mod::lemma_div_is_ordered(s as int, u64::MAX as int, n);
}

} // verus!
