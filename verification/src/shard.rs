//! A shard's data market: bids indexed by target slot, resolved each slot by
//! highest fee into an optional signed shard header.

use vstd::prelude::*;

use crate::bid::Bid;
use crate::eth2_config::{GENESIS_SLOT, MAX_POINTS_PER_BLOCK};
use crate::eth2_types::{
    spec_default_commitment, spec_dummy_signed_header, DataCommitment, ShardHeader,
    SignedShardHeader,
};
use crate::simulation_params::ShardSimulationParams;

verus! {

/// A shard's data market.
pub struct ShardDataMarket {
    /// The slot to be processed next; the last processed slot is `slot - 1`.
    pub slot: u64,
    /// This market's shard id.
    pub shard: u64,
    /// Published bids of each slot not yet resolved, indexed by target slot.
    pub bid_pool: Vec<Vec<Bid>>,
    /// The proposed shard header of each processed slot, `None` where no
    /// blob was proposed.
    pub proposed_headers: Vec<Option<SignedShardHeader>>,
}

/// The index of the winning bid: the highest fee, ties broken by the latest
/// added.
pub open spec fn spec_winner_index(bids: Seq<Bid>) -> int
    recommends
        bids.len() > 0,
    decreases bids.len(),
{
    if bids.len() <= 1 {
        0
    } else {
        let w = spec_winner_index(bids.drop_last());
        if bids.last().fee >= bids[w].fee {
            bids.len() - 1
        } else {
            w
        }
    }
}

/// The winning bid carries the highest fee of the pool, and every later bid
/// carries strictly less, so the latest of the highest-fee bids wins.
pub proof fn lemma_winner_is_max(bids: Seq<Bid>)
    requires
        bids.len() > 0,
    ensures
        0 <= spec_winner_index(bids) < bids.len(),
        forall|j: int| 0 <= j < bids.len() ==> (#[trigger] bids[j]).fee <= bids[spec_winner_index(bids)].fee,
        forall|j: int|
            spec_winner_index(bids) < j < bids.len() ==> (#[trigger] bids[j]).fee
                < bids[spec_winner_index(bids)].fee,
    decreases bids.len(),
{
    if bids.len() > 1 {
        lemma_winner_is_max(bids.drop_last());
        assert(forall|j: int| 0 <= j < bids.len() - 1 ==> bids[j] == bids.drop_last()[j]);
    }
}

/// The header proposed at `slot` out of the bid row `row`: none without a
/// blob proposal, else a stub-signed header carrying the winning bid's
/// commitment where data is included and a bid exists, and the default
/// commitment otherwise.
pub open spec fn spec_proposed_header(
    row: Seq<Bid>,
    slot: u64,
    shard: u64,
    params: ShardSimulationParams,
) -> Option<SignedShardHeader> {
    if !params.blob_proposed {
        None
    } else {
        let commitment = if params.data_included && row.len() > 0 {
            row[spec_winner_index(row)].commitment
        } else {
            spec_default_commitment()
        };
        Some(spec_dummy_signed_header(ShardHeader { slot, shard, commitment }))
    }
}

/// How one slot of processing changes a shard market: the slot advances, the
/// bid row of the processed slot is consumed when a blob is proposed, all
/// other rows are untouched, and exactly the header of
/// `spec_proposed_header` is recorded.
pub open spec fn market_step_ok(
    pre: ShardDataMarket,
    post: ShardDataMarket,
    params: ShardSimulationParams,
) -> bool {
    let slot = pre.slot as int;
    let row = if slot < pre.bid_pool@.len() {
        pre.bid_pool@[slot]@
    } else {
        Seq::<Bid>::empty()
    };
    &&& post.slot == pre.slot + 1
    &&& post.shard == pre.shard
    &&& post.bid_pool@.len() == vstd::math::max(pre.bid_pool@.len() as int, slot + 1)
    &&& forall|r: int|
        0 <= r < pre.bid_pool@.len() && r != slot ==> post.bid_pool@[r] == pre.bid_pool@[r]
    &&& forall|r: int|
        pre.bid_pool@.len() <= r < post.bid_pool@.len() && r != slot ==> post.bid_pool@[r]@
            == Seq::<Bid>::empty()
    &&& (params.blob_proposed ==> post.bid_pool@[slot]@ == Seq::<Bid>::empty())
    &&& (!params.blob_proposed ==> post.bid_pool@[slot]@ == row)
    &&& post.proposed_headers@ == pre.proposed_headers@.push(
        spec_proposed_header(row, pre.slot, pre.shard, params),
    )
}

/// How publishing `bid` changes a shard market: the bid joins the row of
/// its target slot, the pool grows to reach it, and nothing else changes.
pub open spec fn market_publish_ok(pre: ShardDataMarket, post: ShardDataMarket, bid: Bid) -> bool {
    &&& post.slot == pre.slot
    &&& post.shard == pre.shard
    &&& post.proposed_headers == pre.proposed_headers
    &&& post.bid_pool@.len() == vstd::math::max(pre.bid_pool@.len() as int, bid.slot + 1)
    &&& forall|r: int|
        0 <= r < pre.bid_pool@.len() && r != bid.slot ==> post.bid_pool@[r] == pre.bid_pool@[r]
    &&& forall|r: int|
        pre.bid_pool@.len() <= r < post.bid_pool@.len() && r != bid.slot ==> post.bid_pool@[r]@
            == Seq::<Bid>::empty()
    &&& post.bid_pool@[bid.slot as int]@ == (if bid.slot < pre.bid_pool@.len() {
        pre.bid_pool@[bid.slot as int]@
    } else {
        Seq::<Bid>::empty()
    }).push(bid)
}

impl ShardDataMarket {
    /// Every recorded bid is bounded, and one header slot is recorded per
    /// processed slot, carrying this shard's id and a bounded commitment.
    pub open spec fn wf(&self) -> bool {
        &&& self.proposed_headers@.len() == self.slot
        &&& forall|r: int, j: int|
            0 <= r < self.bid_pool@.len() && 0 <= j < self.bid_pool@[r]@.len()
                ==> (#[trigger] self.bid_pool@[r]@[j]).commitment.length <= MAX_POINTS_PER_BLOCK
        &&& forall|s: int|
            0 <= s < self.proposed_headers@.len() ==> match #[trigger] self.proposed_headers@[s] {
                Some(h) => {
                    &&& h.message.slot == s
                    &&& h.message.shard == self.shard
                    &&& h.message.commitment.length <= MAX_POINTS_PER_BLOCK
                },
                None => true,
            }
    }

    /// A fresh market for `shard` at the genesis slot.
    pub fn new(shard: u64) -> (m: Self)
        ensures
            m.wf(),
            m.slot == GENESIS_SLOT,
            m.shard == shard,
            m.bid_pool@.len() == 0,
            m.proposed_headers@.len() == 0,
    {
        ShardDataMarket {
            slot: GENESIS_SLOT,
            shard,
            bid_pool: Vec::new(),
            proposed_headers: Vec::new(),
        }
    }

    /// Publish a bid in this shard's subnet: append it to the bid row of its
    /// target slot, growing the pool to reach sparse slot indices.
    pub fn publish_bid(&mut self, bid: Bid)
        requires
            old(self).wf(),
            bid.commitment.length <= MAX_POINTS_PER_BLOCK,
            bid.slot < usize::MAX as u64,
        ensures
            final(self).wf(),
            market_publish_ok(*old(self), *final(self), bid),
    {
        while self.bid_pool.len() <= bid.slot as usize
            invariant
                old(self).wf(),
                bid.slot < usize::MAX as u64,
                self.slot == old(self).slot,
                self.shard == old(self).shard,
                self.proposed_headers == old(self).proposed_headers,
                self.bid_pool@.len() >= old(self).bid_pool@.len(),
                self.bid_pool@.len() <= vstd::math::max(
                    old(self).bid_pool@.len() as int,
                    bid.slot + 1,
                ),
                forall|r: int|
                    0 <= r < old(self).bid_pool@.len()
                        ==> self.bid_pool@[r] == old(self).bid_pool@[r],
                forall|r: int|
                    old(self).bid_pool@.len() <= r < self.bid_pool@.len() ==> self.bid_pool@[r]@
                        == Seq::<Bid>::empty(),
            decreases bid.slot as int + 1 - self.bid_pool@.len(),
        {
            self.bid_pool.push(Vec::new());
        }
        let idx: usize = bid.slot as usize;
        self.bid_pool[idx].push(bid);
    }

    /// Process one slot: resolve this slot's bids per the slot's settings
    /// and advance to the next slot.
    pub fn process_slot(&mut self, params: &ShardSimulationParams)
        requires
            old(self).wf(),
            old(self).slot + 1 < usize::MAX as u64,
        ensures
            final(self).wf(),
            market_step_ok(*old(self), *final(self), *params),
    {
        while self.bid_pool.len() <= self.slot as usize
            invariant
                old(self).wf(),
                old(self).slot + 1 < usize::MAX as u64,
                self.slot == old(self).slot,
                self.shard == old(self).shard,
                self.proposed_headers == old(self).proposed_headers,
                self.bid_pool@.len() >= old(self).bid_pool@.len(),
                self.bid_pool@.len() <= vstd::math::max(
                    old(self).bid_pool@.len() as int,
                    self.slot + 1,
                ),
                forall|r: int|
                    0 <= r < old(self).bid_pool@.len()
                        ==> self.bid_pool@[r] == old(self).bid_pool@[r],
                forall|r: int|
                    old(self).bid_pool@.len() <= r < self.bid_pool@.len() ==> self.bid_pool@[r]@
                        == Seq::<Bid>::empty(),
            decreases self.slot as int + 1 - self.bid_pool@.len(),
        {
            self.bid_pool.push(Vec::new());
        }
        let ghost grown = self.bid_pool@;
        let ghost s = old(self).slot as int;
        proof {
            if s < old(self).bid_pool@.len() {
                assert(grown[s] == old(self).bid_pool@[s]);
            } else {
                assert(grown[s]@ == Seq::<Bid>::empty());
            }
        }
        if params.blob_proposed {
            self.propose_blob(params.data_included);
            proof {
                let row = grown[s]@;
                if params.data_included && row.len() > 0 {
                    lemma_winner_is_max(row);
                    if s < old(self).bid_pool@.len() {
                        assert(old(self).bid_pool@[s]@[spec_winner_index(row)].commitment.length
                            <= MAX_POINTS_PER_BLOCK);
                    }
                }
                assert(ShardSimulationParams {
                    blob_proposed: true,
                    data_included: params.data_included,
                } == *params);
            }
        } else {
            self.proposed_headers.push(None);
        }
        self.slot = self.slot + 1;
        proof {
            assert(forall|t: int|
                0 <= t < old(self).proposed_headers@.len() ==> self.proposed_headers@[t] == old(
                    self,
                ).proposed_headers@[t]);
            assert(self.wf());
        }
    }

    /// Propose a shard blob: pick the winning bid of this slot's row (the
    /// highest fee, ties to the latest added), consume the row, and record
    /// the signed header.
    fn propose_blob(&mut self, data_included: bool)
        requires
            old(self).wf(),
            old(self).slot < old(self).bid_pool@.len(),
        ensures
            final(self).slot == old(self).slot,
            final(self).shard == old(self).shard,
            final(self).bid_pool@.len() == old(self).bid_pool@.len(),
            forall|r: int|
                0 <= r < old(self).bid_pool@.len() && r != old(self).slot
                    ==> final(self).bid_pool@[r] == old(self).bid_pool@[r],
            final(self).bid_pool@[old(self).slot as int]@ == Seq::<Bid>::empty(),
            final(self).proposed_headers@ == old(self).proposed_headers@.push(
                spec_proposed_header(
                    old(self).bid_pool@[old(self).slot as int]@,
                    old(self).slot,
                    old(self).shard,
                    ShardSimulationParams { blob_proposed: true, data_included },
                ),
            ),
    {
        let pool_len: usize = self.bid_pool.len();
        proof {
            assert(old(self).slot < pool_len);
        }
        let idx: usize = self.slot as usize;
        let commitment: DataCommitment;
        if !data_included || self.bid_pool[idx].len() == 0 {
            commitment = DataCommitment::default();
        } else {
            let row_ref: &Vec<Bid> = &self.bid_pool[idx];
            let ghost row = row_ref@;
            let n: usize = row_ref.len();
            let mut best: usize = 0;
            let mut j: usize = 1;
            proof {
                assert(row.take(1).len() == 1);
            }
            while j < n
                invariant
                    1 <= j <= n,
                    0 <= best < j,
                    n == row.len(),
                    row == row_ref@,
                    best == spec_winner_index(row.take(j as int)),
                decreases n - j,
            {
                proof {
                    assert(row.take(j as int + 1).drop_last() =~= row.take(j as int));
                    assert(row.take(j as int + 1).last() == row[j as int]);
                    assert(row.take(j as int + 1)[best as int] == row[best as int]);
                }
                if row_ref[j].fee >= row_ref[best].fee {
                    best = j;
                }
                j = j + 1;
            }
            proof {
                assert(row.take(n as int) =~= row);
                assert(self.bid_pool@[idx as int]@[best as int].commitment.length
                    <= MAX_POINTS_PER_BLOCK);
            }
            commitment = row_ref[best].commitment;
        }
        self.bid_pool[idx].clear();
        let header = SignedShardHeader::dummy_from_header(
            ShardHeader { slot: self.slot, shard: self.shard, commitment },
        );
        self.proposed_headers.push(Some(header));
    }
}

} // verus!
