//! The simulator orchestrator: owns the beacon chain and one data market
//! per shard, drives them slot by slot under a per-slot fault template, and
//! validates bid submission.

use vstd::prelude::*;

use crate::beacon_chain::{beacon_step_ok, lemma_epoch_step, BeaconChain};
use crate::bid::Bid;
use crate::errors::{BidPublicationError, SlotProcessingError};
use crate::eth2_config::{GENESIS_SLOT, MAX_POINTS_PER_BLOCK, SHARD_NUM, SLOTS_PER_EPOCH};
use crate::eth2_types::{
    spec_block_root, spec_dummy_commitment, spec_genesis_checkpoint, DataCommitment,
    SignedShardHeader,
};
use crate::eth2_utils::spec_epoch_at_slot;
use crate::shard::{market_publish_ok, market_step_ok, ShardDataMarket};
use crate::simulation_params::SimulationParams;

verus! {

/// The simulator: the next slot to process, the beacon chain, one data
/// market per shard, and the fault template of every slot so far.
pub struct Simulator {
    /// The slot to be processed next; the last processed slot is `slot - 1`.
    pub slot: u64,
    pub beacon_chain: BeaconChain,
    pub shards: Vec<ShardDataMarket>,
    /// Settings of the simulation of each slot.
    pub params: Vec<SimulationParams>,
}

/// The headers proposed at `slot` by the shards below `k`, in shard order,
/// skipping shards that proposed none.
pub open spec fn headers_at(
    shards: Seq<ShardDataMarket>,
    slot: int,
    k: int,
) -> Seq<SignedShardHeader>
    decreases k,
{
    if k <= 0 {
        Seq::<SignedShardHeader>::empty()
    } else {
        headers_at(shards, slot, k - 1) + match shards[k - 1].proposed_headers@[slot] {
            Some(h) => seq![h],
            None => Seq::<SignedShardHeader>::empty(),
        }
    }
}

/// Shards equal below `k` propose the same headers below `k`.
pub proof fn lemma_headers_at_prefix_eq(
    a: Seq<ShardDataMarket>,
    b: Seq<ShardDataMarket>,
    slot: int,
    k: int,
)
    requires
        forall|j: int| 0 <= j < k ==> a[j] == b[j],
    ensures
        headers_at(a, slot, k) == headers_at(b, slot, k),
    decreases k,
{
    if k > 0 {
        lemma_headers_at_prefix_eq(a, b, slot, k - 1);
    }
}

/// At most one header per shard.
pub proof fn lemma_headers_at_len(shards: Seq<ShardDataMarket>, slot: int, k: int)
    ensures
        headers_at(shards, slot, k).len() <= (if k < 0 {
            0int
        } else {
            k
        }),
    decreases k,
{
    if k > 0 {
        lemma_headers_at_len(shards, slot, k - 1);
    }
}

/// The happy history of a beacon chain that has processed every slot below
/// `slot` under the happy template: a block at every slot, a checkpoint for
/// every epoch begun, each checkpoint rooted in the first block of its
/// epoch, and finality lagging exactly two epochs.
pub open spec fn happy_chain(slot: u64, c: BeaconChain) -> bool {
    &&& c.blocks@.len() == slot
    &&& forall|i: int| 0 <= i < c.blocks@.len() ==> (#[trigger] c.blocks@[i]).slot == i
    &&& c.checkpoints@.len() == (if slot == 0 {
        0int
    } else {
        spec_epoch_at_slot((slot - 1) as u64) + 1
    })
    &&& forall|e: int|
        0 <= e < c.checkpoints@.len() ==> (#[trigger] c.checkpoints@[e]).root == spec_block_root(
            c.blocks@[e * (SLOTS_PER_EPOCH as int)],
        )
    &&& (if slot > 0 && spec_epoch_at_slot((slot - 1) as u64) >= 2 {
        c.finalized_checkpoint.epoch == spec_epoch_at_slot((slot - 1) as u64) - 2
    } else {
        c.finalized_checkpoint == spec_genesis_checkpoint()
    })
}

/// Every recorded fault template is the happy one.
pub open spec fn all_params_happy(ps: Seq<SimulationParams>) -> bool {
    forall|i: int| 0 <= i < ps.len() ==> (#[trigger] ps[i]).is_happy()
}

/// A happy slot keeps a happy history: the block lands at its slot, the
/// checkpoint list follows the epoch, each new checkpoint is rooted in the
/// epoch's first block, and the finalized epoch becomes exactly two less
/// than the processed slot's epoch.
#[verifier::rlimit(100)]
pub proof fn lemma_happy_step(
    pre_slot: u64,
    prec: BeaconChain,
    postc: BeaconChain,
    extra: Seq<SignedShardHeader>,
    params: crate::simulation_params::BeaconSimulationParams,
)
    requires
        happy_chain(pre_slot, prec),
        params == crate::simulation_params::spec_beacon_happy(),
        beacon_step_ok(prec, extra, postc, params),
        prec.wf(),
        postc.wf(),
        prec.slot == pre_slot,
        postc.slot == pre_slot + 1,
        pre_slot + 1 < u64::MAX,
    ensures
        happy_chain((pre_slot + 1) as u64, postc),
{
    lemma_epoch_step(pre_slot);
    if pre_slot > 0 {
        lemma_epoch_step((pre_slot - 1) as u64);
    }
    let e_now = spec_epoch_at_slot(pre_slot) as int;
    assert(postc.blocks@.len() == pre_slot + 1);
    assert forall|i: int| 0 <= i < postc.blocks@.len() implies (#[trigger] postc.blocks@[i]).slot
        == i by {
        if i < prec.blocks@.len() {
            assert(postc.blocks@[i] == prec.blocks@[i]);
        } else {
            assert(postc.blocks@[i] == postc.blocks@.last());
        }
    }
    assert(postc.checkpoints@.len() == e_now + 1);
    assert forall|e: int| 0 <= e < postc.checkpoints@.len() implies (
    #[trigger] postc.checkpoints@[e]).root == spec_block_root(
        postc.blocks@[e * (SLOTS_PER_EPOCH as int)],
    ) by {
        if e < prec.checkpoints@.len() {
            assert(postc.checkpoints@[e] == prec.checkpoints@[e]);
            assert(e * (SLOTS_PER_EPOCH as int) < prec.blocks@.len()) by (nonlinear_arith)
                requires
                    0 <= e < prec.checkpoints@.len(),
                    prec.checkpoints@.len() * (SLOTS_PER_EPOCH as int) <= prec.blocks@.len()
                        + (SLOTS_PER_EPOCH as int) - 1,
                    SLOTS_PER_EPOCH >= 1,
            ;
            assert(postc.blocks@[e * (SLOTS_PER_EPOCH as int)] == prec.blocks@[e * (
            SLOTS_PER_EPOCH as int)]);
        } else {
            assert(e == e_now);
            assert(prec.checkpoints@.len() == e_now);
            assert(pre_slot == e_now * (SLOTS_PER_EPOCH as int));
            assert(postc.blocks@[e * (SLOTS_PER_EPOCH as int)] == postc.blocks@.last());
        }
    }
    if spec_epoch_at_slot(pre_slot) >= 2 {
        let te = e_now - 2;
        assert(postc.checkpoints@.len() > te);
        assert(postc.finalized_checkpoint == postc.checkpoints@[te]);
        assert(postc.finalized_checkpoint.epoch == te);
    } else {
        assert(postc.finalized_checkpoint == prec.finalized_checkpoint);
    }
}

impl Simulator {
    /// The standing invariant apart from the params-length bookkeeping: the
    /// clocks agree, each shard market is well-formed under its own id, and
    /// the pools and pending lists hold no more than the shards can publish
    /// in the epoch.
    pub open spec fn wf_core(&self) -> bool {
        &&& self.beacon_chain.wf()
        &&& self.beacon_chain.slot == self.slot
        &&& self.shards@.len() == SHARD_NUM
        &&& forall|k: int|
            0 <= k < SHARD_NUM ==> {
                let m = #[trigger] self.shards@[k];
                &&& m.wf()
                &&& m.shard == k
                &&& m.slot == self.slot
            }
        &&& self.beacon_chain.state.current_epoch_pending_shard_headers@.len()
            + self.beacon_chain.current_epoch_shard_header_pool@.len() <= SHARD_NUM * (self.slot
            % SLOTS_PER_EPOCH)
        &&& self.beacon_chain.state.previous_epoch_pending_shard_headers@.len()
            + self.beacon_chain.previous_epoch_shard_header_pool@.len() <= SHARD_NUM
            * SLOTS_PER_EPOCH
        &&& forall|i: int| 0 <= i < self.params@.len() ==> (#[trigger] self.params@[i]).wf()
    }

    /// The standing invariant: `wf_core` and one recorded template per
    /// processed slot.
    pub open spec fn wf(&self) -> bool {
        &&& self.wf_core()
        &&& self.params@.len() == self.slot
    }

    /// The whole simulator has run happily so far.
    pub open spec fn happy_case(&self) -> bool {
        happy_chain(self.slot, self.beacon_chain)
    }

    /// A fresh simulator at the genesis slot.
    pub fn new() -> (s: Self)
        ensures
            s.wf(),
            s.slot == GENESIS_SLOT,
            s.params@.len() == 0,
            s.shards@.len() == SHARD_NUM,
            s.beacon_chain.blocks@.len() == 0,
            s.beacon_chain.states@.len() == 0,
            s.beacon_chain.checkpoints@.len() == 0,
            s.beacon_chain.finalized_checkpoint == spec_genesis_checkpoint(),
            s.happy_case(),
    {
        let mut shards: Vec<ShardDataMarket> = Vec::new();
        let mut k: u64 = 0;
        while k < SHARD_NUM
            invariant
                0 <= k <= SHARD_NUM,
                shards@.len() == k,
                forall|j: int|
                    0 <= j < k ==> {
                        let m = #[trigger] shards@[j];
                        &&& m.wf()
                        &&& m.shard == j
                        &&& m.slot == GENESIS_SLOT
                    },
            decreases SHARD_NUM - k,
        {
            shards.push(ShardDataMarket::new(k));
            k = k + 1;
        }
        Simulator { slot: GENESIS_SLOT, beacon_chain: BeaconChain::new(), shards, params: Vec::new() }
    }

    /// Process the next slot under its recorded template: advance every
    /// shard in shard order, publish each proposed header to the beacon
    /// chain, then process the beacon slot.
    fn process_slot(&mut self)
        requires
            old(self).wf_core(),
            old(self).slot < old(self).params@.len(),
            old(self).slot + 1 < usize::MAX as u64,
        ensures
            final(self).wf_core(),
            final(self).slot == old(self).slot + 1,
            final(self).params == old(self).params,
            final(self).beacon_chain.finalized_checkpoint.epoch >= old(self).beacon_chain.finalized_checkpoint.epoch,
            forall|k: int|
                0 <= k < SHARD_NUM ==> market_step_ok(
                    old(self).shards@[k],
                    #[trigger] final(self).shards@[k],
                    old(self).params@[old(self).slot as int].shard_params@[k],
                ),
            beacon_step_ok(
                old(self).beacon_chain,
                headers_at(final(self).shards@, old(self).slot as int, SHARD_NUM as int),
                final(self).beacon_chain,
                old(self).params@[old(self).slot as int].beacon_params,
            ),
            old(self).happy_case() && old(self).params@[old(self).slot as int].is_happy()
                ==> final(self).happy_case(),
    {
        let ghost pre = *old(self);
        let slot_idx: usize = self.slot as usize;
        let mut k: usize = 0;
        while k < SHARD_NUM as usize
            invariant
                0 <= k <= SHARD_NUM,
                pre.wf_core(),
                pre.slot < pre.params@.len(),
                pre.slot + 1 < usize::MAX as u64,
                slot_idx == pre.slot as int,
                self.slot == pre.slot,
                self.params == pre.params,
                self.shards@.len() == SHARD_NUM,
                forall|j: int| k <= j < SHARD_NUM ==> self.shards@[j] == pre.shards@[j],
                forall|j: int|
                    0 <= j < k ==> market_step_ok(
                        pre.shards@[j],
                        #[trigger] self.shards@[j],
                        pre.params@[pre.slot as int].shard_params@[j],
                    ),
                forall|j: int|
                    0 <= j < k ==> {
                        let m = #[trigger] self.shards@[j];
                        &&& m.wf()
                        &&& m.shard == j
                        &&& m.slot == pre.slot + 1
                    },
                self.beacon_chain.wf(),
                self.beacon_chain.slot == pre.beacon_chain.slot,
                self.beacon_chain.state == pre.beacon_chain.state,
                self.beacon_chain.finalized_checkpoint == pre.beacon_chain.finalized_checkpoint,
                self.beacon_chain.blocks == pre.beacon_chain.blocks,
                self.beacon_chain.states == pre.beacon_chain.states,
                self.beacon_chain.checkpoints == pre.beacon_chain.checkpoints,
                self.beacon_chain.previous_epoch_shard_header_pool
                    == pre.beacon_chain.previous_epoch_shard_header_pool,
                self.beacon_chain.current_epoch_shard_header_pool@
                    == pre.beacon_chain.current_epoch_shard_header_pool@ + headers_at(
                    self.shards@,
                    pre.slot as int,
                    k as int,
                ),
            decreases SHARD_NUM - k,
        {
            let ghost shards_before = self.shards@;
            proof {
                assert(self.shards@[k as int] == pre.shards@[k as int]);
                assert(pre.shards@[k as int].wf());
                assert(pre.params@[pre.slot as int].wf());
            }
            let sp = self.params[slot_idx].shard_params[k];
            self.shards[k].process_slot(&sp);
            proof {
                lemma_headers_at_prefix_eq(
                    shards_before,
                    self.shards@,
                    pre.slot as int,
                    k as int,
                );
                assert(self.shards@[k as int].proposed_headers@.len() == pre.slot + 1);
            }
            let header_opt = self.shards[k].proposed_headers[slot_idx];
            match header_opt {
                Some(h) => {
                    proof {
                        assert(h.message.slot == pre.slot as int);
                        assert(spec_epoch_at_slot(h.message.slot) == spec_epoch_at_slot(
                            self.beacon_chain.slot,
                        ));
                    }
                    self.beacon_chain.publish_shard_header(h);
                },
                None => {},
            }
            proof {
                assert(headers_at(self.shards@, pre.slot as int, k as int + 1) == headers_at(
                    self.shards@,
                    pre.slot as int,
                    k as int,
                ) + (match self.shards@[k as int].proposed_headers@[pre.slot as int] {
                    Some(h) => seq![h],
                    None => Seq::<SignedShardHeader>::empty(),
                }));
                assert(self.beacon_chain.current_epoch_shard_header_pool@
                    =~= pre.beacon_chain.current_epoch_shard_header_pool@ + headers_at(
                    self.shards@,
                    pre.slot as int,
                    k as int + 1,
                ));
            }
            k = k + 1;
        }
        let ghost pub_seq = headers_at(self.shards@, pre.slot as int, SHARD_NUM as int);
        let ghost mid_beacon = self.beacon_chain;
        proof {
            lemma_headers_at_len(self.shards@, pre.slot as int, SHARD_NUM as int);
        }
        let bp = self.params[slot_idx].beacon_params;
        self.beacon_chain.process_slot(&bp);
        self.slot = self.slot + 1;
        proof {
            let post = *self;
            assert(beacon_step_ok(pre.beacon_chain, pub_seq, post.beacon_chain, bp)) by {
                assert(mid_beacon.current_epoch_shard_header_pool@ + Seq::<
                    SignedShardHeader,
                >::empty() =~= mid_beacon.current_epoch_shard_header_pool@);
                assert(mid_beacon.current_epoch_shard_header_pool@
                    == pre.beacon_chain.current_epoch_shard_header_pool@ + pub_seq);
                assert(beacon_step_ok(
                    mid_beacon,
                    Seq::<SignedShardHeader>::empty(),
                    post.beacon_chain,
                    bp,
                ));
            }
            lemma_epoch_step(pre.slot);
            lemma_headers_at_len(post.shards@, pre.slot as int, SHARD_NUM as int);
            let prev_pool0 = pre.beacon_chain.previous_epoch_shard_header_pool@;
            let cur_pool0 = pre.beacon_chain.current_epoch_shard_header_pool@ + pub_seq;
            let drains = bp.beacon_block_proposed && bp.shard_headers_included;
            let ip = if drains {
                crate::beacon_chain::spec_take_upto(
                    prev_pool0,
                    crate::eth2_config::MAX_SHARD_HEADERS as int,
                )
            } else {
                Seq::<SignedShardHeader>::empty()
            };
            let ic = if drains {
                crate::beacon_chain::spec_take_upto(
                    cur_pool0,
                    crate::beacon_chain::spec_remaining_quota(prev_pool0),
                )
            } else {
                Seq::<SignedShardHeader>::empty()
            };
            assert(ip.len() <= prev_pool0.len() && ic.len() <= cur_pool0.len()) by {
                crate::beacon_chain::lemma_take_upto_props(
                    prev_pool0,
                    crate::eth2_config::MAX_SHARD_HEADERS as int,
                );
                crate::beacon_chain::lemma_take_upto_props(
                    cur_pool0,
                    crate::beacon_chain::spec_remaining_quota(prev_pool0),
                );
            }
            assert(crate::beacon_chain::spec_pendings_of(ip).len() == ip.len()
                && crate::beacon_chain::spec_pendings_of(ic).len() == ic.len()) by {
                crate::beacon_chain::lemma_pendings_props(ip);
                crate::beacon_chain::lemma_pendings_props(ic);
            }
            assert(crate::beacon_chain::spec_confirm_all(
                pre.beacon_chain.state.previous_epoch_pending_shard_headers@
                    + crate::beacon_chain::spec_pendings_of(ip),
            ).len() == pre.beacon_chain.state.previous_epoch_pending_shard_headers@.len()
                + ip.len() && crate::beacon_chain::spec_confirm_all(
                pre.beacon_chain.state.current_epoch_pending_shard_headers@
                    + crate::beacon_chain::spec_pendings_of(ic),
            ).len() == pre.beacon_chain.state.current_epoch_pending_shard_headers@.len()
                + ic.len()) by {
                crate::beacon_chain::lemma_pendings_props(ip);
                crate::beacon_chain::lemma_pendings_props(ic);
                crate::beacon_chain::lemma_confirm_all_props(
                    pre.beacon_chain.state.previous_epoch_pending_shard_headers@
                        + crate::beacon_chain::spec_pendings_of(ip),
                );
                crate::beacon_chain::lemma_confirm_all_props(
                    pre.beacon_chain.state.current_epoch_pending_shard_headers@
                        + crate::beacon_chain::spec_pendings_of(ic),
                );
            }
            assert(post.beacon_chain.state.current_epoch_pending_shard_headers@.len()
                + post.beacon_chain.current_epoch_shard_header_pool@.len() <= SHARD_NUM * (
            post.slot % SLOTS_PER_EPOCH)) by {
                assert(pub_seq.len() <= SHARD_NUM);
            }
            assert(post.beacon_chain.state.previous_epoch_pending_shard_headers@.len()
                + post.beacon_chain.previous_epoch_shard_header_pool@.len() <= SHARD_NUM
                * SLOTS_PER_EPOCH) by {
                assert(pub_seq.len() <= SHARD_NUM);
            }
            assert(post.wf_core());
            if pre.happy_case() && pre.params@[pre.slot as int].is_happy() {
                assert(bp == crate::simulation_params::spec_beacon_happy());
                lemma_happy_step(pre.slot, pre.beacon_chain, post.beacon_chain, pub_seq, bp);
            }
        }
    }
}

impl Simulator {
    /// Process every slot up to and including `slot` under the recorded
    /// templates. Fails fast when `slot` is already processed.
    fn process_slots(&mut self, slot: u64) -> (r: Result<(), SlotProcessingError>)
        requires
            old(self).wf_core(),
            old(self).slot <= slot ==> old(self).params@.len() == slot + 1,
            old(self).slot > slot ==> old(self).params@.len() == old(self).slot,
            slot + 1 < usize::MAX as u64,
        ensures
            final(self).wf(),
            final(self).params == old(self).params,
            old(self).slot > slot ==> r == Err::<(), SlotProcessingError>(
                SlotProcessingError::PastSlot { next: old(self).slot, found: slot },
            ) && *final(self) == *old(self),
            old(self).slot <= slot ==> r == Ok::<(), SlotProcessingError>(()) && final(self).slot
                == slot + 1,
            final(self).beacon_chain.finalized_checkpoint.epoch >= old(self).beacon_chain.finalized_checkpoint.epoch,
            old(self).happy_case() && all_params_happy(old(self).params@) ==> final(self).happy_case(),
    {
        if self.slot > slot {
            return Err(SlotProcessingError::PastSlot { next: self.slot, found: slot });
        }
        while self.slot <= slot
            invariant
                self.wf_core(),
                self.params@.len() == slot + 1,
                self.params == old(self).params,
                self.slot <= slot + 1,
                slot + 1 < usize::MAX as u64,
                self.beacon_chain.finalized_checkpoint.epoch >= old(self).beacon_chain.finalized_checkpoint.epoch,
                old(self).happy_case() && all_params_happy(old(self).params@)
                    ==> self.happy_case(),
            decreases slot + 1 - self.slot,
        {
            proof {
                if all_params_happy(old(self).params@) {
                    assert(self.params@[self.slot as int].is_happy());
                }
            }
            self.process_slot();
        }
        Ok(())
    }

    /// Process to the given slot in the happy case.
    pub fn process_slots_happy(&mut self, slot: u64) -> (r: Result<(), SlotProcessingError>)
        requires
            old(self).wf(),
            slot + 1 < usize::MAX as u64,
        ensures
            final(self).wf(),
            old(self).slot > slot ==> r == Err::<(), SlotProcessingError>(
                SlotProcessingError::PastSlot { next: old(self).slot, found: slot },
            ) && *final(self) == *old(self),
            old(self).slot <= slot ==> {
                &&& r == Ok::<(), SlotProcessingError>(())
                &&& final(self).slot == slot + 1
                &&& final(self).params@.len() == slot + 1
                &&& final(self).params@.take(old(self).params@.len() as int) == old(self).params@
                &&& forall|i: int|
                    old(self).params@.len() <= i < final(self).params@.len()
                        ==> (#[trigger] final(self).params@[i]).is_happy()
            },
            final(self).beacon_chain.finalized_checkpoint.epoch >= old(self).beacon_chain.finalized_checkpoint.epoch,
            old(self).happy_case() && all_params_happy(old(self).params@) ==> final(self).happy_case(),
    {
        if self.slot <= slot {
            while self.params.len() <= slot as usize
                invariant
                    self.slot == old(self).slot,
                    self.beacon_chain == old(self).beacon_chain,
                    self.shards == old(self).shards,
                    self.wf_core(),
                    old(self).params@.len() == old(self).slot,
                    slot + 1 < usize::MAX as u64,
                    old(self).params@.len() <= self.params@.len(),
                    self.params@.len() <= vstd::math::max(old(self).params@.len() as int, slot + 1),
                    self.params@.take(old(self).params@.len() as int) == old(self).params@,
                    forall|i: int|
                        old(self).params@.len() <= i < self.params@.len()
                            ==> (#[trigger] self.params@[i]).is_happy() && self.params@[i].wf(),
                decreases slot + 1 - self.params@.len(),
            {
                self.params.push(SimulationParams::happy());
                proof {
                    assert(self.params@.take(old(self).params@.len() as int) =~= old(self).params@);
                }
            }
        }
        proof {
            if all_params_happy(old(self).params@) {
                assert forall|i: int| 0 <= i < self.params@.len() implies (
                #[trigger] self.params@[i]).is_happy() by {
                    if i < old(self).params@.len() {
                        assert(self.params@[i] == old(self).params@[i]);
                    }
                }
            }
        }
        self.process_slots(slot)
    }

    /// Process to the given slot; no data gets included in any shard blob.
    pub fn process_slots_without_shard_data_inclusion(&mut self, slot: u64) -> (r: Result<(), SlotProcessingError>)
        requires
            old(self).wf(),
            slot + 1 < usize::MAX as u64,
        ensures
            final(self).wf(),
            old(self).slot > slot ==> r == Err::<(), SlotProcessingError>(
                SlotProcessingError::PastSlot { next: old(self).slot, found: slot },
            ) && *final(self) == *old(self),
            old(self).slot <= slot ==> {
                &&& r == Ok::<(), SlotProcessingError>(())
                &&& final(self).slot == slot + 1
                &&& final(self).params@.len() == slot + 1
                &&& final(self).params@.take(old(self).params@.len() as int) == old(self).params@
                &&& forall|i: int|
                    old(self).params@.len() <= i < final(self).params@.len()
                        ==> (#[trigger] final(self).params@[i]).is_no_shard_data_inclusion()
            },
            final(self).beacon_chain.finalized_checkpoint.epoch >= old(self).beacon_chain.finalized_checkpoint.epoch,
    {
        if self.slot <= slot {
            while self.params.len() <= slot as usize
                invariant
                    self.slot == old(self).slot,
                    self.beacon_chain == old(self).beacon_chain,
                    self.shards == old(self).shards,
                    self.wf_core(),
                    old(self).params@.len() == old(self).slot,
                    slot + 1 < usize::MAX as u64,
                    old(self).params@.len() <= self.params@.len(),
                    self.params@.len() <= vstd::math::max(old(self).params@.len() as int, slot + 1),
                    self.params@.take(old(self).params@.len() as int) == old(self).params@,
                    forall|i: int|
                        old(self).params@.len() <= i < self.params@.len()
                            ==> (#[trigger] self.params@[i]).is_no_shard_data_inclusion() && self.params@[i].wf(),
                decreases slot + 1 - self.params@.len(),
            {
                self.params.push(SimulationParams::no_shard_data_inclusion());
                proof {
                    assert(self.params@.take(old(self).params@.len() as int) =~= old(self).params@);
                }
            }
        }
        self.process_slots(slot)
    }

    /// Process to the given slot; no shard blob is proposed in any shard.
    pub fn process_slots_without_shard_blob_proposal(&mut self, slot: u64) -> (r: Result<(), SlotProcessingError>)
        requires
            old(self).wf(),
            slot + 1 < usize::MAX as u64,
        ensures
            final(self).wf(),
            old(self).slot > slot ==> r == Err::<(), SlotProcessingError>(
                SlotProcessingError::PastSlot { next: old(self).slot, found: slot },
            ) && *final(self) == *old(self),
            old(self).slot <= slot ==> {
                &&& r == Ok::<(), SlotProcessingError>(())
                &&& final(self).slot == slot + 1
                &&& final(self).params@.len() == slot + 1
                &&& final(self).params@.take(old(self).params@.len() as int) == old(self).params@
                &&& forall|i: int|
                    old(self).params@.len() <= i < final(self).params@.len()
                        ==> (#[trigger] final(self).params@[i]).is_no_shard_blob_proposal()
            },
            final(self).beacon_chain.finalized_checkpoint.epoch >= old(self).beacon_chain.finalized_checkpoint.epoch,
    {
        if self.slot <= slot {
            while self.params.len() <= slot as usize
                invariant
                    self.slot == old(self).slot,
                    self.beacon_chain == old(self).beacon_chain,
                    self.shards == old(self).shards,
                    self.wf_core(),
                    old(self).params@.len() == old(self).slot,
                    slot + 1 < usize::MAX as u64,
                    old(self).params@.len() <= self.params@.len(),
                    self.params@.len() <= vstd::math::max(old(self).params@.len() as int, slot + 1),
                    self.params@.take(old(self).params@.len() as int) == old(self).params@,
                    forall|i: int|
                        old(self).params@.len() <= i < self.params@.len()
                            ==> (#[trigger] self.params@[i]).is_no_shard_blob_proposal() && self.params@[i].wf(),
                decreases slot + 1 - self.params@.len(),
            {
                self.params.push(SimulationParams::no_shard_blob_proposal());
                proof {
                    assert(self.params@.take(old(self).params@.len() as int) =~= old(self).params@);
                }
            }
        }
        self.process_slots(slot)
    }

    /// Process to the given slot; no shard header enters a beacon block.
    pub fn process_slots_without_shard_header_inclusion(&mut self, slot: u64) -> (r: Result<(), SlotProcessingError>)
        requires
            old(self).wf(),
            slot + 1 < usize::MAX as u64,
        ensures
            final(self).wf(),
            old(self).slot > slot ==> r == Err::<(), SlotProcessingError>(
                SlotProcessingError::PastSlot { next: old(self).slot, found: slot },
            ) && *final(self) == *old(self),
            old(self).slot <= slot ==> {
                &&& r == Ok::<(), SlotProcessingError>(())
                &&& final(self).slot == slot + 1
                &&& final(self).params@.len() == slot + 1
                &&& final(self).params@.take(old(self).params@.len() as int) == old(self).params@
                &&& forall|i: int|
                    old(self).params@.len() <= i < final(self).params@.len()
                        ==> (#[trigger] final(self).params@[i]).is_no_shard_header_inclusion()
            },
            final(self).beacon_chain.finalized_checkpoint.epoch >= old(self).beacon_chain.finalized_checkpoint.epoch,
    {
        if self.slot <= slot {
            while self.params.len() <= slot as usize
                invariant
                    self.slot == old(self).slot,
                    self.beacon_chain == old(self).beacon_chain,
                    self.shards == old(self).shards,
                    self.wf_core(),
                    old(self).params@.len() == old(self).slot,
                    slot + 1 < usize::MAX as u64,
                    old(self).params@.len() <= self.params@.len(),
                    self.params@.len() <= vstd::math::max(old(self).params@.len() as int, slot + 1),
                    self.params@.take(old(self).params@.len() as int) == old(self).params@,
                    forall|i: int|
                        old(self).params@.len() <= i < self.params@.len()
                            ==> (#[trigger] self.params@[i]).is_no_shard_header_inclusion() && self.params@[i].wf(),
                decreases slot + 1 - self.params@.len(),
            {
                self.params.push(SimulationParams::no_shard_header_inclusion());
                proof {
                    assert(self.params@.take(old(self).params@.len() as int) =~= old(self).params@);
                }
            }
        }
        self.process_slots(slot)
    }

    /// Process to the given slot; no shard header gets confirmed.
    pub fn process_slots_without_shard_header_confirmation(&mut self, slot: u64) -> (r: Result<(), SlotProcessingError>)
        requires
            old(self).wf(),
            slot + 1 < usize::MAX as u64,
        ensures
            final(self).wf(),
            old(self).slot > slot ==> r == Err::<(), SlotProcessingError>(
                SlotProcessingError::PastSlot { next: old(self).slot, found: slot },
            ) && *final(self) == *old(self),
            old(self).slot <= slot ==> {
                &&& r == Ok::<(), SlotProcessingError>(())
                &&& final(self).slot == slot + 1
                &&& final(self).params@.len() == slot + 1
                &&& final(self).params@.take(old(self).params@.len() as int) == old(self).params@
                &&& forall|i: int|
                    old(self).params@.len() <= i < final(self).params@.len()
                        ==> (#[trigger] final(self).params@[i]).is_no_shard_header_confirmation()
            },
            final(self).beacon_chain.finalized_checkpoint.epoch >= old(self).beacon_chain.finalized_checkpoint.epoch,
    {
        if self.slot <= slot {
            while self.params.len() <= slot as usize
                invariant
                    self.slot == old(self).slot,
                    self.beacon_chain == old(self).beacon_chain,
                    self.shards == old(self).shards,
                    self.wf_core(),
                    old(self).params@.len() == old(self).slot,
                    slot + 1 < usize::MAX as u64,
                    old(self).params@.len() <= self.params@.len(),
                    self.params@.len() <= vstd::math::max(old(self).params@.len() as int, slot + 1),
                    self.params@.take(old(self).params@.len() as int) == old(self).params@,
                    forall|i: int|
                        old(self).params@.len() <= i < self.params@.len()
                            ==> (#[trigger] self.params@[i]).is_no_shard_header_confirmation() && self.params@[i].wf(),
                decreases slot + 1 - self.params@.len(),
            {
                self.params.push(SimulationParams::no_shard_header_confirmation());
                proof {
                    assert(self.params@.take(old(self).params@.len() as int) =~= old(self).params@);
                }
            }
        }
        self.process_slots(slot)
    }

    /// Process to the given slot; no checkpoint gets finalized.
    pub fn process_slots_without_beacon_chain_finality(&mut self, slot: u64) -> (r: Result<(), SlotProcessingError>)
        requires
            old(self).wf(),
            slot + 1 < usize::MAX as u64,
        ensures
            final(self).wf(),
            old(self).slot > slot ==> r == Err::<(), SlotProcessingError>(
                SlotProcessingError::PastSlot { next: old(self).slot, found: slot },
            ) && *final(self) == *old(self),
            old(self).slot <= slot ==> {
                &&& r == Ok::<(), SlotProcessingError>(())
                &&& final(self).slot == slot + 1
                &&& final(self).params@.len() == slot + 1
                &&& final(self).params@.take(old(self).params@.len() as int) == old(self).params@
                &&& forall|i: int|
                    old(self).params@.len() <= i < final(self).params@.len()
                        ==> (#[trigger] final(self).params@[i]).is_no_beacon_chain_finality()
            },
            final(self).beacon_chain.finalized_checkpoint.epoch >= old(self).beacon_chain.finalized_checkpoint.epoch,
    {
        if self.slot <= slot {
            while self.params.len() <= slot as usize
                invariant
                    self.slot == old(self).slot,
                    self.beacon_chain == old(self).beacon_chain,
                    self.shards == old(self).shards,
                    self.wf_core(),
                    old(self).params@.len() == old(self).slot,
                    slot + 1 < usize::MAX as u64,
                    old(self).params@.len() <= self.params@.len(),
                    self.params@.len() <= vstd::math::max(old(self).params@.len() as int, slot + 1),
                    self.params@.take(old(self).params@.len() as int) == old(self).params@,
                    forall|i: int|
                        old(self).params@.len() <= i < self.params@.len()
                            ==> (#[trigger] self.params@[i]).is_no_beacon_chain_finality() && self.params@[i].wf(),
                decreases slot + 1 - self.params@.len(),
            {
                self.params.push(SimulationParams::no_beacon_chain_finality());
                proof {
                    assert(self.params@.take(old(self).params@.len() as int) =~= old(self).params@);
                }
            }
        }
        self.process_slots(slot)
    }

    /// Process to the given slot; no beacon block is proposed.
    pub fn process_slots_without_beacon_block_proposal(&mut self, slot: u64) -> (r: Result<(), SlotProcessingError>)
        requires
            old(self).wf(),
            slot + 1 < usize::MAX as u64,
        ensures
            final(self).wf(),
            old(self).slot > slot ==> r == Err::<(), SlotProcessingError>(
                SlotProcessingError::PastSlot { next: old(self).slot, found: slot },
            ) && *final(self) == *old(self),
            old(self).slot <= slot ==> {
                &&& r == Ok::<(), SlotProcessingError>(())
                &&& final(self).slot == slot + 1
                &&& final(self).params@.len() == slot + 1
                &&& final(self).params@.take(old(self).params@.len() as int) == old(self).params@
                &&& forall|i: int|
                    old(self).params@.len() <= i < final(self).params@.len()
                        ==> (#[trigger] final(self).params@[i]).is_no_beacon_block_proposal()
            },
            final(self).beacon_chain.finalized_checkpoint.epoch >= old(self).beacon_chain.finalized_checkpoint.epoch,
    {
        if self.slot <= slot {
            while self.params.len() <= slot as usize
                invariant
                    self.slot == old(self).slot,
                    self.beacon_chain == old(self).beacon_chain,
                    self.shards == old(self).shards,
                    self.wf_core(),
                    old(self).params@.len() == old(self).slot,
                    slot + 1 < usize::MAX as u64,
                    old(self).params@.len() <= self.params@.len(),
                    self.params@.len() <= vstd::math::max(old(self).params@.len() as int, slot + 1),
                    self.params@.take(old(self).params@.len() as int) == old(self).params@,
                    forall|i: int|
                        old(self).params@.len() <= i < self.params@.len()
                            ==> (#[trigger] self.params@[i]).is_no_beacon_block_proposal() && self.params@[i].wf(),
                decreases slot + 1 - self.params@.len(),
            {
                self.params.push(SimulationParams::no_beacon_block_proposal());
                proof {
                    assert(self.params@.take(old(self).params@.len() as int) =~= old(self).params@);
                }
            }
        }
        self.process_slots(slot)
    }

    /// Process to the given slot; each slot's template is sampled uniformly from the eight fault templates.
    pub fn process_slots_random(&mut self, slot: u64) -> (r: Result<(), SlotProcessingError>)
        requires
            old(self).wf(),
            slot + 1 < usize::MAX as u64,
        ensures
            final(self).wf(),
            old(self).slot > slot ==> r == Err::<(), SlotProcessingError>(
                SlotProcessingError::PastSlot { next: old(self).slot, found: slot },
            ) && *final(self) == *old(self),
            old(self).slot <= slot ==> {
                &&& r == Ok::<(), SlotProcessingError>(())
                &&& final(self).slot == slot + 1
                &&& final(self).params@.len() == slot + 1
                &&& final(self).params@.take(old(self).params@.len() as int) == old(self).params@
                &&& forall|i: int|
                    old(self).params@.len() <= i < final(self).params@.len()
                        ==> (#[trigger] final(self).params@[i]).is_template()
            },
            final(self).beacon_chain.finalized_checkpoint.epoch >= old(self).beacon_chain.finalized_checkpoint.epoch,
    {
        if self.slot <= slot {
            while self.params.len() <= slot as usize
                invariant
                    self.slot == old(self).slot,
                    self.beacon_chain == old(self).beacon_chain,
                    self.shards == old(self).shards,
                    self.wf_core(),
                    old(self).params@.len() == old(self).slot,
                    slot + 1 < usize::MAX as u64,
                    old(self).params@.len() <= self.params@.len(),
                    self.params@.len() <= vstd::math::max(old(self).params@.len() as int, slot + 1),
                    self.params@.take(old(self).params@.len() as int) == old(self).params@,
                    forall|i: int|
                        old(self).params@.len() <= i < self.params@.len()
                            ==> (#[trigger] self.params@[i]).is_template() && self.params@[i].wf(),
                decreases slot + 1 - self.params@.len(),
            {
                self.params.push(SimulationParams::random());
                proof {
                    assert(self.params@.take(old(self).params@.len() as int) =~= old(self).params@);
                }
            }
        }
        self.process_slots(slot)
    }

    /// Submit a bid: reject oversized commitments, then bids for already
    /// processed slots; otherwise route the bid to its shard's market.
    pub fn publish_bid(&mut self, bid: Bid) -> (r: Result<(), BidPublicationError>)
        requires
            old(self).wf(),
            bid.shard < SHARD_NUM,
            bid.slot < usize::MAX as u64,
        ensures
            final(self).wf(),
            bid.commitment.length > MAX_POINTS_PER_BLOCK ==> r == Err::<(), BidPublicationError>(
                BidPublicationError::TooLargeData { found: bid.commitment.length },
            ) && *final(self) == *old(self),
            bid.commitment.length <= MAX_POINTS_PER_BLOCK && bid.slot < old(self).slot ==> r
                == Err::<(), BidPublicationError>(
                BidPublicationError::PastSlot { next: old(self).slot, found: bid.slot },
            ) && *final(self) == *old(self),
            bid.commitment.length <= MAX_POINTS_PER_BLOCK && bid.slot >= old(self).slot ==> {
                &&& r == Ok::<(), BidPublicationError>(())
                &&& final(self).slot == old(self).slot
                &&& final(self).beacon_chain == old(self).beacon_chain
                &&& final(self).params == old(self).params
                &&& final(self).shards@.len() == SHARD_NUM
                &&& forall|k: int|
                    0 <= k < SHARD_NUM && k != bid.shard ==> final(self).shards@[k] == old(self).shards@[k]
                &&& market_publish_ok(
                    old(self).shards@[bid.shard as int],
                    final(self).shards@[bid.shard as int],
                    bid,
                )
            },
    {
        if bid.commitment.length > MAX_POINTS_PER_BLOCK {
            return Err(BidPublicationError::TooLargeData { found: bid.commitment.length });
        }
        if bid.slot < self.slot {
            return Err(BidPublicationError::PastSlot { next: self.slot, found: bid.slot });
        }
        let shard_idx: usize = bid.shard as usize;
        proof {
            assert(self.shards@[shard_idx as int].wf());
        }
        self.shards[shard_idx].publish_bid(bid);
        Ok(())
    }

    /// Submit a bid together with its blob bytes: the bytes must commit to
    /// exactly the bid's commitment; then the bid is validated and routed
    /// as by `publish_bid`.
    pub fn publish_bid_with_data(&mut self, bid: Bid, data: &Vec<u8>) -> (r: Result<
        (),
        BidPublicationError,
    >)
        requires
            old(self).wf(),
            bid.shard < SHARD_NUM,
            bid.slot < usize::MAX as u64,
        ensures
            final(self).wf(),
            spec_dummy_commitment(data@) != bid.commitment ==> r == Err::<
                (),
                BidPublicationError,
            >(
                BidPublicationError::InvalidCommitment {
                    expect: spec_dummy_commitment(data@),
                    found: bid.commitment,
                },
            ) && *final(self) == *old(self),
            spec_dummy_commitment(data@) == bid.commitment ==> {
                &&& (bid.commitment.length > MAX_POINTS_PER_BLOCK ==> r == Err::<
                    (),
                    BidPublicationError,
                >(BidPublicationError::TooLargeData { found: bid.commitment.length }) && *final(self) == *old(self))
                &&& (bid.commitment.length <= MAX_POINTS_PER_BLOCK && bid.slot < old(self).slot
                    ==> r == Err::<(), BidPublicationError>(
                    BidPublicationError::PastSlot { next: old(self).slot, found: bid.slot },
                ) && *final(self) == *old(self))
                &&& (bid.commitment.length <= MAX_POINTS_PER_BLOCK && bid.slot >= old(self).slot
                    ==> r == Ok::<(), BidPublicationError>(()) && final(self).slot == old(self).slot && final(self).params == old(self).params && final(self).shards@.len()
                    == SHARD_NUM && market_publish_ok(
                    old(self).shards@[bid.shard as int],
                    final(self).shards@[bid.shard as int],
                    bid,
                ))
            },
    {
        let expect = DataCommitment::dummy_from_bytes(data);
        if !(expect == bid.commitment) {
            return Err(BidPublicationError::InvalidCommitment { expect, found: bid.commitment });
        }
        self.publish_bid(bid)
    }

    /// The last processed slot, if any slot was processed yet.
    pub fn last_processed_slot(&self) -> (r: Option<u64>)
        ensures
            self.beacon_chain.slot == 0 ==> r == None::<u64>,
            self.beacon_chain.slot > 0 ==> r == Some((self.beacon_chain.slot - 1) as u64),
    {
        if self.beacon_chain.slot == 0 {
            None
        } else {
            Some(self.beacon_chain.slot - 1)
        }
    }
}

impl Default for Simulator {
    /// A fresh simulator at the genesis slot.
    fn default() -> (s: Self)
        ensures
            s.wf(),
            s.slot == GENESIS_SLOT,
            s.params@.len() == 0,
            s.happy_case(),
    {
        Simulator::new()
    }
}

/// Check that a routing shard id matches the bid's shard.
pub fn validate_bid_shard(route_shard: u64, bid: &Bid) -> (r: Result<(), BidPublicationError>)
    ensures
        route_shard == bid.shard ==> r == Ok::<(), BidPublicationError>(()),
        route_shard != bid.shard ==> r == Err::<(), BidPublicationError>(
            BidPublicationError::InvalidShard { expect: route_shard, found: bid.shard },
        ),
{
    if route_shard != bid.shard {
        Err(BidPublicationError::InvalidShard { expect: route_shard, found: bid.shard })
    } else {
        Ok(())
    }
}


} // verus!
