//! Per-slot fault configuration of the simulation: which duties the shards
//! and the beacon chain perform in a slot.

use vstd::prelude::*;

use crate::eth2_config::SHARD_NUM;

verus! {

/// Settings of the shard simulation of a slot.
#[derive(Clone, Copy, Debug, PartialEq, Eq, Structural)]
pub struct ShardSimulationParams {
    /// Whether a shard blob is proposed. A proposed blob's header is
    /// published on the global subnet.
    pub blob_proposed: bool,
    /// Whether the data specified by a bid is included in the shard blob.
    pub data_included: bool,
}

/// Shard settings in the happy case.
pub open spec fn spec_shard_happy() -> ShardSimulationParams {
    ShardSimulationParams { blob_proposed: true, data_included: true }
}

/// Shard settings with no blob proposal (and hence no data inclusion).
pub open spec fn spec_shard_no_blob_proposal() -> ShardSimulationParams {
    ShardSimulationParams { blob_proposed: false, data_included: false }
}

/// Shard settings with a blob proposed but no data included.
pub open spec fn spec_shard_no_data_inclusion() -> ShardSimulationParams {
    ShardSimulationParams { blob_proposed: true, data_included: false }
}

impl ShardSimulationParams {
    /// Happy case of the shard.
    pub fn happy() -> (p: Self)
        ensures
            p == spec_shard_happy(),
    {
        ShardSimulationParams { blob_proposed: true, data_included: true }
    }

    /// Everything fails.
    pub fn all_failure() -> (p: Self)
        ensures
            p == spec_shard_no_blob_proposal(),
    {
        Self::no_blob_proposal()
    }

    /// No shard blob is proposed; without a blob no data is included.
    pub fn no_blob_proposal() -> (p: Self)
        ensures
            p == spec_shard_no_blob_proposal(),
    {
        ShardSimulationParams { blob_proposed: false, data_included: false }
    }

    /// A blob is proposed but no data is included.
    pub fn no_data_inclusion() -> (p: Self)
        ensures
            p == spec_shard_no_data_inclusion(),
    {
        ShardSimulationParams { blob_proposed: true, data_included: false }
    }
}

/// Settings of the beacon chain simulation of a slot.
#[derive(Clone, Copy, Debug, PartialEq, Eq, Structural)]
pub struct BeaconSimulationParams {
    /// Whether a beacon block is proposed.
    pub beacon_block_proposed: bool,
    /// Whether the grandparent epoch's checkpoint gets finalized (if it is
    /// not finalized yet).
    pub beacon_chain_finalized: bool,
    /// Whether published-but-unincluded shard headers are included.
    pub shard_headers_included: bool,
    /// Whether included-but-unconfirmed shard headers are confirmed.
    pub shard_headers_confirmed: bool,
}

/// Beacon settings in the happy case.
pub open spec fn spec_beacon_happy() -> BeaconSimulationParams {
    BeaconSimulationParams {
        beacon_block_proposed: true,
        beacon_chain_finalized: true,
        shard_headers_included: true,
        shard_headers_confirmed: true,
    }
}

/// Beacon settings where everything fails.
pub open spec fn spec_beacon_all_failure() -> BeaconSimulationParams {
    BeaconSimulationParams {
        beacon_block_proposed: false,
        beacon_chain_finalized: false,
        shard_headers_included: false,
        shard_headers_confirmed: false,
    }
}

/// Beacon settings with no block proposal: without a block neither headers
/// nor attestations enter the chain.
pub open spec fn spec_beacon_no_block_proposal() -> BeaconSimulationParams {
    BeaconSimulationParams {
        beacon_block_proposed: false,
        beacon_chain_finalized: true,
        shard_headers_included: false,
        shard_headers_confirmed: false,
    }
}

/// Beacon settings where no checkpoint gets finalized.
pub open spec fn spec_beacon_no_chain_finality() -> BeaconSimulationParams {
    BeaconSimulationParams {
        beacon_block_proposed: true,
        beacon_chain_finalized: false,
        shard_headers_included: true,
        shard_headers_confirmed: true,
    }
}

/// Beacon settings where no shard header gets included.
pub open spec fn spec_beacon_no_shard_header_inclusion() -> BeaconSimulationParams {
    BeaconSimulationParams {
        beacon_block_proposed: true,
        beacon_chain_finalized: false,
        shard_headers_included: false,
        shard_headers_confirmed: true,
    }
}

/// Beacon settings where no shard header gets confirmed.
pub open spec fn spec_beacon_no_shard_header_confirmation() -> BeaconSimulationParams {
    BeaconSimulationParams {
        beacon_block_proposed: true,
        beacon_chain_finalized: false,
        shard_headers_included: true,
        shard_headers_confirmed: false,
    }
}

impl BeaconSimulationParams {
    /// Happy case of the beacon chain.
    pub fn happy() -> (p: Self)
        ensures
            p == spec_beacon_happy(),
    {
        BeaconSimulationParams {
            beacon_block_proposed: true,
            beacon_chain_finalized: true,
            shard_headers_included: true,
            shard_headers_confirmed: true,
        }
    }

    /// Everything fails.
    pub fn all_failure() -> (p: Self)
        ensures
            p == spec_beacon_all_failure(),
    {
        BeaconSimulationParams {
            beacon_block_proposed: false,
            beacon_chain_finalized: false,
            shard_headers_included: false,
            shard_headers_confirmed: false,
        }
    }

    /// No beacon block is proposed.
    pub fn no_block_proposal() -> (p: Self)
        ensures
            p == spec_beacon_no_block_proposal(),
    {
        BeaconSimulationParams {
            beacon_block_proposed: false,
            beacon_chain_finalized: true,
            shard_headers_included: false,
            shard_headers_confirmed: false,
        }
    }

    /// No checkpoint gets finalized.
    pub fn no_chain_finality() -> (p: Self)
        ensures
            p == spec_beacon_no_chain_finality(),
    {
        BeaconSimulationParams {
            beacon_block_proposed: true,
            beacon_chain_finalized: false,
            shard_headers_included: true,
            shard_headers_confirmed: true,
        }
    }

    /// None of the headers of any shard gets included.
    pub fn no_shard_header_inclusion() -> (p: Self)
        ensures
            p == spec_beacon_no_shard_header_inclusion(),
    {
        BeaconSimulationParams {
            beacon_block_proposed: true,
            beacon_chain_finalized: false,
            shard_headers_included: false,
            shard_headers_confirmed: true,
        }
    }

    /// None of the headers of any shard gets confirmed.
    pub fn no_shard_header_confirmation() -> (p: Self)
        ensures
            p == spec_beacon_no_shard_header_confirmation(),
    {
        BeaconSimulationParams {
            beacon_block_proposed: true,
            beacon_chain_finalized: false,
            shard_headers_included: true,
            shard_headers_confirmed: false,
        }
    }
}

/// Settings of the whole simulation of a slot.
#[derive(Clone, Debug)]
pub struct SimulationParams {
    /// Settings of the beacon chain simulation of a slot.
    pub beacon_params: BeaconSimulationParams,
    /// Settings of the shard simulation of a slot, one entry per shard.
    pub shard_params: Vec<ShardSimulationParams>,
}

impl SimulationParams {
    /// One shard-params entry per shard, all equal.
    pub open spec fn uniform_shards(
        &self,
        p: ShardSimulationParams,
    ) -> bool {
        &&& self.shard_params@.len() == SHARD_NUM
        &&& forall|k: int| 0 <= k < SHARD_NUM ==> self.shard_params@[k] == p
    }

    /// Well-formed: one shard-params entry per shard.
    pub open spec fn wf(&self) -> bool {
        self.shard_params@.len() == SHARD_NUM
    }

    /// The happy template.
    pub open spec fn is_happy(&self) -> bool {
        &&& self.beacon_params == spec_beacon_happy()
        &&& self.uniform_shards(spec_shard_happy())
    }

    /// The all-failure template.
    pub open spec fn is_all_failure(&self) -> bool {
        &&& self.beacon_params == spec_beacon_all_failure()
        &&& self.uniform_shards(spec_shard_no_blob_proposal())
    }

    /// The no-shard-data-inclusion template.
    pub open spec fn is_no_shard_data_inclusion(&self) -> bool {
        &&& self.beacon_params == spec_beacon_happy()
        &&& self.uniform_shards(spec_shard_no_data_inclusion())
    }

    /// The no-shard-blob-proposal template.
    pub open spec fn is_no_shard_blob_proposal(&self) -> bool {
        &&& self.beacon_params == spec_beacon_happy()
        &&& self.uniform_shards(spec_shard_no_blob_proposal())
    }

    /// The no-shard-header-inclusion template.
    pub open spec fn is_no_shard_header_inclusion(&self) -> bool {
        &&& self.beacon_params == spec_beacon_no_shard_header_inclusion()
        &&& self.uniform_shards(spec_shard_happy())
    }

    /// The no-shard-header-confirmation template.
    pub open spec fn is_no_shard_header_confirmation(&self) -> bool {
        &&& self.beacon_params == spec_beacon_no_shard_header_confirmation()
        &&& self.uniform_shards(spec_shard_happy())
    }

    /// The no-beacon-chain-finality template.
    pub open spec fn is_no_beacon_chain_finality(&self) -> bool {
        &&& self.beacon_params == spec_beacon_no_chain_finality()
        &&& self.uniform_shards(spec_shard_happy())
    }

    /// The no-beacon-block-proposal template.
    pub open spec fn is_no_beacon_block_proposal(&self) -> bool {
        &&& self.beacon_params == spec_beacon_no_block_proposal()
        &&& self.uniform_shards(spec_shard_happy())
    }

    /// One of the eight templates.
    pub open spec fn is_template(&self) -> bool {
        ||| self.is_happy()
        ||| self.is_all_failure()
        ||| self.is_no_shard_data_inclusion()
        ||| self.is_no_shard_blob_proposal()
        ||| self.is_no_shard_header_inclusion()
        ||| self.is_no_shard_header_confirmation()
        ||| self.is_no_beacon_chain_finality()
        ||| self.is_no_beacon_block_proposal()
    }

    /// Happy case.
    pub fn happy() -> (p: Self)
        ensures
            p.is_happy(),
            p.wf(),
    {
        SimulationParams {
            beacon_params: BeaconSimulationParams::happy(),
            shard_params: uniform_shard_params(ShardSimulationParams::happy()),
        }
    }

    /// Everything fails.
    pub fn all_failure() -> (p: Self)
        ensures
            p.is_all_failure(),
            p.wf(),
    {
        SimulationParams {
            beacon_params: BeaconSimulationParams::all_failure(),
            shard_params: uniform_shard_params(ShardSimulationParams::all_failure()),
        }
    }

    /// No data gets included in any shard.
    pub fn no_shard_data_inclusion() -> (p: Self)
        ensures
            p.is_no_shard_data_inclusion(),
            p.wf(),
    {
        SimulationParams {
            beacon_params: BeaconSimulationParams::happy(),
            shard_params: uniform_shard_params(ShardSimulationParams::no_data_inclusion()),
        }
    }

    /// No shard blob is proposed in any shard.
    pub fn no_shard_blob_proposal() -> (p: Self)
        ensures
            p.is_no_shard_blob_proposal(),
            p.wf(),
    {
        SimulationParams {
            beacon_params: BeaconSimulationParams::happy(),
            shard_params: uniform_shard_params(ShardSimulationParams::no_blob_proposal()),
        }
    }

    /// No shard header is included for any shard.
    pub fn no_shard_header_inclusion() -> (p: Self)
        ensures
            p.is_no_shard_header_inclusion(),
            p.wf(),
    {
        SimulationParams {
            beacon_params: BeaconSimulationParams::no_shard_header_inclusion(),
            shard_params: uniform_shard_params(ShardSimulationParams::happy()),
        }
    }

    /// No shard header is confirmed for any shard.
    pub fn no_shard_header_confirmation() -> (p: Self)
        ensures
            p.is_no_shard_header_confirmation(),
            p.wf(),
    {
        SimulationParams {
            beacon_params: BeaconSimulationParams::no_shard_header_confirmation(),
            shard_params: uniform_shard_params(ShardSimulationParams::happy()),
        }
    }

    /// No checkpoint gets finalized.
    pub fn no_beacon_chain_finality() -> (p: Self)
        ensures
            p.is_no_beacon_chain_finality(),
            p.wf(),
    {
        SimulationParams {
            beacon_params: BeaconSimulationParams::no_chain_finality(),
            shard_params: uniform_shard_params(ShardSimulationParams::happy()),
        }
    }

    /// No beacon block is proposed.
    pub fn no_beacon_block_proposal() -> (p: Self)
        ensures
            p.is_no_beacon_block_proposal(),
            p.wf(),
    {
        SimulationParams {
            beacon_params: BeaconSimulationParams::no_block_proposal(),
            shard_params: uniform_shard_params(ShardSimulationParams::happy()),
        }
    }

    /// The template with the given index, of the eight fault templates.
    pub fn from_variant_index(index: u64) -> (p: Self)
        ensures
            p.is_template(),
            p.wf(),
            index % 8 == 0 ==> p.is_happy(),
            index % 8 == 1 ==> p.is_all_failure(),
            index % 8 == 2 ==> p.is_no_shard_data_inclusion(),
            index % 8 == 3 ==> p.is_no_shard_blob_proposal(),
            index % 8 == 4 ==> p.is_no_shard_header_inclusion(),
            index % 8 == 5 ==> p.is_no_shard_header_confirmation(),
            index % 8 == 6 ==> p.is_no_beacon_chain_finality(),
            index % 8 == 7 ==> p.is_no_beacon_block_proposal(),
    {
        let variant: u64 = index % 8;
        if variant == 0 {
            Self::happy()
        } else if variant == 1 {
            Self::all_failure()
        } else if variant == 2 {
            Self::no_shard_data_inclusion()
        } else if variant == 3 {
            Self::no_shard_blob_proposal()
        } else if variant == 4 {
            Self::no_shard_header_inclusion()
        } else if variant == 5 {
            Self::no_shard_header_confirmation()
        } else if variant == 6 {
            Self::no_beacon_chain_finality()
        } else {
            Self::no_beacon_block_proposal()
        }
    }

    /// A uniformly sampled fault template. Of the sample nothing is assumed;
    /// the result is one of the eight templates whatever value came back.
    pub fn random() -> (p: Self)
        ensures
            p.is_template(),
            p.wf(),
    {
        let index = sample_u64();
        Self::from_variant_index(index)
    }
}

/// One shard-params entry per shard, all equal to `p`.
fn uniform_shard_params(p: ShardSimulationParams) -> (v: Vec<ShardSimulationParams>)
    ensures
        v@.len() == SHARD_NUM,
        forall|k: int| 0 <= k < SHARD_NUM ==> v@[k] == p,
{
    let mut v: Vec<ShardSimulationParams> = Vec::new();
    let mut k: u64 = 0;
    while k < SHARD_NUM
        invariant
            0 <= k <= SHARD_NUM,
            v@.len() == k,
            forall|j: int| 0 <= j < k ==> v@[j] == p,
        decreases SHARD_NUM - k,
    {
        v.push(p);
        k = k + 1;
    }
    v
}

/// Relies on `rand::random`: a uniformly sampled `u64`. Nothing is promised
/// of the value.
#[verifier::external_body]
fn sample_u64() -> u64 {
    rand::random::<u64>()
}

} // verus!
