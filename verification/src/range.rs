//! The block range that a tick covers.
use vstd::prelude::*;

verus! {

/// A range of blocks, both ends included.
#[derive(Clone, Copy, Debug, PartialEq, Eq, Structural)]
pub struct BlockRange {
    pub from: u64,
    pub to: u64,
}

/// The first block of the next tick: the block after the checkpoint, or the
/// checkpoint itself where it is the start block of a filter seen for the
/// first time.
pub open spec fn first_block(last_observed_block: u64, fresh: bool) -> int {
    if fresh {
        last_observed_block as int
    } else {
        last_observed_block + 1
    }
}

/// The last block of a tick that begins at `from`: the finalized height, or
/// `from + limit` where a limit is set and that is lower.
pub open spec fn last_block(from: int, finalized: u64, limit: Option<u64>) -> int {
    match limit {
        Some(limit) => if from + limit < finalized {
            from + limit
        } else {
            finalized as int
        },
        None => finalized as int,
    }
}

/// The range of the next tick, or `None` where no block is left to fetch.
pub open spec fn tick_range(
    last_observed_block: u64,
    fresh: bool,
    finalized: u64,
    limit: Option<u64>,
) -> Option<BlockRange> {
    let from = first_block(last_observed_block, fresh);
    let to = last_block(from, finalized, limit);
    if from > to {
        None
    } else {
        Some(BlockRange { from: from as u64, to: to as u64 })
    }
}

/// Computes the range of the next tick from the checkpoint, the finalized
/// height and the limit on the blocks of one tick.
pub fn block_range(last_observed_block: u64, fresh: bool, finalized: u64, limit: Option<u64>) -> (range:
    Option<BlockRange>)
    ensures
        range == tick_range(last_observed_block, fresh, finalized, limit),
{
    if !fresh && last_observed_block == u64::MAX {
        return None;
    }
    let from: u64 = if fresh {
        last_observed_block
    } else {
        last_observed_block + 1
    };
    if from > finalized {
        return None;
    }
    let to: u64 = match limit {
        Some(limit) => if limit < finalized - from {
            from + limit
        } else {
            finalized
        },
        None => finalized,
    };
    Some(BlockRange { from, to })
}

/// A tick never reaches beyond the finalized height, nor beyond its first
/// block plus the limit where one is set; it begins at the first block that
/// has not been applied, and it is idle exactly when that block is not
/// finalized yet. Without a limit it reaches the finalized height.
pub proof fn lemma_range_bounded(
    last_observed_block: u64,
    fresh: bool,
    finalized: u64,
    limit: Option<u64>,
)
    ensures
        match tick_range(last_observed_block, fresh, finalized, limit) {
            Some(range) => {
                &&& range.from == first_block(last_observed_block, fresh)
                &&& range.from <= range.to <= finalized
                &&& last_observed_block <= range.to
                &&& match limit {
                    Some(limit) => range.to <= range.from + limit && (range.to == finalized
                        || range.to == range.from + limit),
                    None => range.to == finalized,
                }
            },
            None => first_block(last_observed_block, fresh) > finalized,
        },
{
}

} // verus!
