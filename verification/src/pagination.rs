//! Pagination over the chain histories: a page of width `count`, counted
//! backward from the tail by slot windows.

use vstd::prelude::*;

use crate::eth2_types::{block_eq, state_eq, BeaconBlock, BeaconState};

verus! {

/// Marks the start index of a returned page window.
pub open spec fn page_start(lo: int) -> bool {
    true
}

/// Whether `slot` falls into the `page`-th window of width `count` counted
/// backward from `last`.
pub open spec fn spec_in_page(slot: u64, last: u64, count: u64, page: u64) -> bool {
    &&& last < slot + count * (page + 1)
    &&& slot + count * page <= last
}

/// Decide window membership.
fn in_page(slot: u64, last: u64, count: u64, page: u64) -> (b: bool)
    requires
        count * (page + 1) <= u64::MAX,
        page < u64::MAX,
    ensures
        b == spec_in_page(slot, last, count, page),
{
    proof {
        assert(count * page <= count * (page + 1)) by (nonlinear_arith)
            requires
                page < u64::MAX,
        ;
    }
    let width: u64 = count * (page + 1);
    let offset: u64 = count * page;
    let lower_ok: bool = match slot.checked_add(width) {
        Some(hi) => last < hi,
        None => true,
    };
    let upper_ok: bool = match slot.checked_add(offset) {
        Some(lo) => lo <= last,
        None => false,
    };
    lower_ok && upper_ok
}

/// A page over the block history: all blocks when fewer than `count` exist,
/// else exactly the blocks of the requested slot window — a contiguous run,
/// since block slots increase.
pub fn paginate_blocks(blocks: &Vec<BeaconBlock>, count: u64, page: u64) -> (r: Vec<BeaconBlock>)
    requires
        forall|i: int, j: int|
            0 <= i < j < blocks@.len() ==> (#[trigger] blocks@[i]).slot < (
            #[trigger] blocks@[j]).slot,
        count * (page + 1) <= u64::MAX,
        page < u64::MAX,
        blocks@.len() >= count ==> blocks@.len() > 0,
    ensures
        blocks@.len() < count ==> r@.len() == blocks@.len() && (forall|i: int|
            0 <= i < r@.len() ==> block_eq(#[trigger] r@[i], blocks@[i])),
        blocks@.len() >= count ==> exists|lo: int|
            {
                let last = blocks@.last().slot;
                &&& #[trigger] page_start(lo)
                &&& 0 <= lo
                &&& lo + r@.len() <= blocks@.len()
                &&& (forall|t: int|
                    0 <= t < r@.len() ==> block_eq(#[trigger] r@[t], blocks@[lo + t]))
                &&& (forall|j: int|
                    0 <= j < blocks@.len() ==> (spec_in_page(
                        (#[trigger] blocks@[j]).slot,
                        last,
                        count,
                        page,
                    ) <==> (r@.len() > 0 && lo <= j < lo + r@.len())))
            },
{
    if (blocks.len() as u64) < count {
        let mut r: Vec<BeaconBlock> = Vec::new();
        let mut i: usize = 0;
        while i < blocks.len()
            invariant
                0 <= i <= blocks@.len(),
                r@.len() == i,
                forall|t: int| 0 <= t < i ==> block_eq(#[trigger] r@[t], blocks@[t]),
            decreases blocks@.len() - i,
        {
            r.push(blocks[i].clone());
            i = i + 1;
        }
        r
    } else {
        let last: u64 = blocks[blocks.len() - 1].slot;
        let mut r: Vec<BeaconBlock> = Vec::new();
        let ghost mut lo: int = 0;
        let mut i: usize = 0;
        while i < blocks.len()
            invariant
                0 <= i <= blocks@.len(),
                blocks@.len() > 0,
                count * (page + 1) <= u64::MAX,
                page < u64::MAX,
                last == blocks@.last().slot,
                forall|a: int, b: int|
                    0 <= a < b < blocks@.len() ==> (#[trigger] blocks@[a]).slot < (
                    #[trigger] blocks@[b]).slot,
                0 <= lo,
                lo + r@.len() <= i,
                r@.len() > 0 ==> lo + r@.len() == i || (forall|j: int|
                    lo + r@.len() <= j < i ==> !spec_in_page(
                        (#[trigger] blocks@[j]).slot,
                        last,
                        count,
                        page,
                    )),
                forall|t: int| 0 <= t < r@.len() ==> block_eq(#[trigger] r@[t], blocks@[lo + t]),
                forall|j: int|
                    0 <= j < i ==> (spec_in_page(
                        (#[trigger] blocks@[j]).slot,
                        last,
                        count,
                        page,
                    ) <==> (r@.len() > 0 && lo <= j < lo + r@.len())),
            decreases blocks@.len() - i,
        {
            if in_page(blocks[i].slot, last, count, page) {
                proof {
                    if r@.len() == 0 {
                        lo = i as int;
                    } else {
                        if lo + r@.len() < i {
                            let mid = lo + r@.len();
                            assert(blocks@[lo].slot < blocks@[mid].slot);
                            assert(blocks@[mid].slot < blocks@[i as int].slot);
                            assert(spec_in_page(blocks@[mid].slot, last, count, page));
                            assert(false);
                        }
                    }
                }
                r.push(blocks[i].clone());
            }
            i = i + 1;
        }
        proof {
            assert(page_start(lo));
        }
        r
    }
}

/// A page over the state history, with the same window semantics as
/// `paginate_blocks`.
pub fn paginate_states(states: &Vec<BeaconState>, count: u64, page: u64) -> (r: Vec<BeaconState>)
    requires
        forall|i: int, j: int|
            0 <= i < j < states@.len() ==> (#[trigger] states@[i]).slot < (
            #[trigger] states@[j]).slot,
        count * (page + 1) <= u64::MAX,
        page < u64::MAX,
        states@.len() >= count ==> states@.len() > 0,
    ensures
        states@.len() < count ==> r@.len() == states@.len() && (forall|i: int|
            0 <= i < r@.len() ==> state_eq(#[trigger] r@[i], states@[i])),
        states@.len() >= count ==> exists|lo: int|
            {
                let last = states@.last().slot;
                &&& #[trigger] page_start(lo)
                &&& 0 <= lo
                &&& lo + r@.len() <= states@.len()
                &&& (forall|t: int|
                    0 <= t < r@.len() ==> state_eq(#[trigger] r@[t], states@[lo + t]))
                &&& (forall|j: int|
                    0 <= j < states@.len() ==> (spec_in_page(
                        (#[trigger] states@[j]).slot,
                        last,
                        count,
                        page,
                    ) <==> (r@.len() > 0 && lo <= j < lo + r@.len())))
            },
{
    if (states.len() as u64) < count {
        let mut r: Vec<BeaconState> = Vec::new();
        let mut i: usize = 0;
        while i < states.len()
            invariant
                0 <= i <= states@.len(),
                r@.len() == i,
                forall|t: int| 0 <= t < i ==> state_eq(#[trigger] r@[t], states@[t]),
            decreases states@.len() - i,
        {
            r.push(states[i].clone());
            i = i + 1;
        }
        r
    } else {
        let last: u64 = states[states.len() - 1].slot;
        let mut r: Vec<BeaconState> = Vec::new();
        let ghost mut lo: int = 0;
        let mut i: usize = 0;
        while i < states.len()
            invariant
                0 <= i <= states@.len(),
                states@.len() > 0,
                count * (page + 1) <= u64::MAX,
                page < u64::MAX,
                last == states@.last().slot,
                forall|a: int, b: int|
                    0 <= a < b < states@.len() ==> (#[trigger] states@[a]).slot < (
                    #[trigger] states@[b]).slot,
                0 <= lo,
                lo + r@.len() <= i,
                forall|t: int| 0 <= t < r@.len() ==> state_eq(#[trigger] r@[t], states@[lo + t]),
                forall|j: int|
                    0 <= j < i ==> (spec_in_page(
                        (#[trigger] states@[j]).slot,
                        last,
                        count,
                        page,
                    ) <==> (r@.len() > 0 && lo <= j < lo + r@.len())),
            decreases states@.len() - i,
        {
            if in_page(states[i].slot, last, count, page) {
                proof {
                    if r@.len() == 0 {
                        lo = i as int;
                    } else {
                        if lo + r@.len() < i {
                            let mid = lo + r@.len();
                            assert(states@[lo].slot < states@[mid].slot);
                            assert(states@[mid].slot < states@[i as int].slot);
                            assert(spec_in_page(states@[mid].slot, last, count, page));
                            assert(false);
                        }
                    }
                }
                r.push(states[i].clone());
            }
            i = i + 1;
        }
        proof {
            assert(page_start(lo));
        }
        r
    }
}

} // verus!
