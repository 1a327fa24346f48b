//! Whether the blocks in the cache continue the chain that the wallet has scanned.

use vstd::prelude::*;
use crate::error::Error;

verus! {

/// The number that reports a chain without conflict.
pub const NO_CONFLICT: i64 = -1;

/// The number that reports that the chain could not be looked at.
pub const NOT_VALIDATED: i64 = 0;

/// What links a cached block to the one before it.
#[derive(Clone, Debug, PartialEq, Eq)]
pub struct BlockLink {
    /// The height of the block.
    pub height: u32,
    /// The hash of the block.
    pub hash: Vec<u8>,
    /// The hash that the block gives for the block before it.
    pub prev_hash: Vec<u8>,
}

/// The block that the cached blocks have to continue: the last one that the wallet
/// scanned or, for a wallet that has scanned nothing, the block that the caller
/// trusts. Without a hash only the height is held against the cache.
#[derive(Clone, Debug, PartialEq, Eq)]
pub struct ChainTip {
    pub height: u32,
    pub hash: Option<Vec<u8>>,
}

/// Why a block does not continue the chain.
#[derive(Clone, Copy, Debug, PartialEq, Eq, Structural)]
pub enum ConflictCause {
    /// The block is not at the next height.
    HeightDiscontinuity,
    /// The block is at the next height and names another block as the one before it.
    PrevHashMismatch,
}

/// The status of the cached blocks.
#[derive(Clone, Copy, Debug, PartialEq, Eq, Structural)]
pub enum ChainStatus {
    /// Every cached block continues the chain.
    Valid,
    /// The chain breaks at `height`: the cache holds no block that continues it there.
    Conflict { height: i64, cause: ConflictCause },
}

/// The height of what comes before the block at `i`.
pub open spec fn height_before(tip: ChainTip, blocks: Seq<BlockLink>, i: int) -> int {
    if i == 0 {
        tip.height as int
    } else {
        blocks[i - 1].height as int
    }
}

/// The hash of what comes before the block at `i`, where it is known.
pub open spec fn hash_before(tip: ChainTip, blocks: Seq<BlockLink>, i: int) -> Option<Seq<u8>> {
    if i == 0 {
        match tip.hash {
            Some(h) => Some(h@),
            None => None,
        }
    } else {
        Some(blocks[i - 1].hash@)
    }
}

/// The block at `i` is at the next height.
pub open spec fn height_follows(tip: ChainTip, blocks: Seq<BlockLink>, i: int) -> bool {
    blocks[i].height == height_before(tip, blocks, i) + 1
}

/// The block at `i` names the block before it.
pub open spec fn hash_follows(tip: ChainTip, blocks: Seq<BlockLink>, i: int) -> bool {
    match hash_before(tip, blocks, i) {
        Some(h) => blocks[i].prev_hash@ == h,
        None => true,
    }
}

/// The block at `i` continues the chain.
pub open spec fn links(tip: ChainTip, blocks: Seq<BlockLink>, i: int) -> bool {
    height_follows(tip, blocks, i) && hash_follows(tip, blocks, i)
}

/// Why the block at `i` does not continue the chain. The height is looked at first.
pub open spec fn cause_at(tip: ChainTip, blocks: Seq<BlockLink>, i: int) -> ConflictCause {
    if height_follows(tip, blocks, i) {
        ConflictCause::PrevHashMismatch
    } else {
        ConflictCause::HeightDiscontinuity
    }
}

/// `status` is the status of `blocks` after `tip`: valid where every block links, and
/// else a conflict at the height that the first block that does not link should have had.
pub open spec fn is_chain_status(tip: ChainTip, blocks: Seq<BlockLink>, status: ChainStatus) -> bool {
    match status {
        ChainStatus::Valid => forall|i: int| 0 <= i < blocks.len() ==> links(tip, blocks, i),
        ChainStatus::Conflict { height, cause } => {
            let i = height - tip.height - 1;
            &&& 0 <= i < blocks.len()
            &&& !links(tip, blocks, i)
            &&& forall|j: int| 0 <= j < i ==> links(tip, blocks, j)
            &&& cause == cause_at(tip, blocks, i)
        },
    }
}

/// Whether two byte strings are the same.
pub fn same_bytes(a: &Vec<u8>, b: &Vec<u8>) -> (same: bool)
    ensures
        same == (a@ == b@),
{
    if a.len() != b.len() {
        return false;
    }
    let mut i: usize = 0;
    while i < a.len()
        invariant
            a@.len() == b@.len(),
            i <= a@.len(),
            forall|j: int| 0 <= j < i ==> a@[j] == b@[j],
        decreases a@.len() - i,
    {
        if a[i] != b[i] {
            return false;
        }
        i = i + 1;
    }
    assert(a@ =~= b@);
    true
}

/// The number of blocks at the front of the cache that lie at or below the tip: the
/// wallet has scanned them, and their place in the chain is not in question.
pub open spec fn below_tip(tip: ChainTip, cache: Seq<BlockLink>) -> int
    decreases cache.len(),
{
    if cache.len() > 0 && cache[0].height <= tip.height {
        1 + below_tip(tip, cache.drop_first())
    } else {
        0
    }
}

/// The blocks of the cache that have to continue the chain: all but those at its front
/// that lie at or below the tip.
pub open spec fn above_tip(tip: ChainTip, cache: Seq<BlockLink>) -> Seq<BlockLink> {
    cache.skip(below_tip(tip, cache))
}

/// Holds the blocks from index `first` on against the chain that ends in `tip`.
fn validate_from(tip: &ChainTip, blocks: &Vec<BlockLink>, first: usize) -> (status: ChainStatus)
    requires
        first <= blocks@.len(),
    ensures
        is_chain_status(*tip, blocks@.skip(first as int), status),
{
    let ghost rest = blocks@.skip(first as int);
    let mut expected: i64 = tip.height as i64 + 1;
    let mut i: usize = first;
    while i < blocks.len()
        invariant
            first <= i <= blocks@.len(),
            rest == blocks@.skip(first as int),
            expected == tip.height + (i - first) + 1,
            i < blocks@.len() ==> expected == height_before(*tip, rest, i - first) + 1,
            forall|j: int| 0 <= j < i - first ==> links(*tip, rest, j),
        decreases blocks@.len() - i,
    {
        let block = &blocks[i];
        assert(rest[i - first] == blocks@[i as int]);
        if block.height as i64 != expected {
            return ChainStatus::Conflict {
                height: expected,
                cause: ConflictCause::HeightDiscontinuity,
            };
        }
        let named = if i == first {
            match &tip.hash {
                Some(h) => same_bytes(&block.prev_hash, h),
                None => true,
            }
        } else {
            assert(rest[i - first - 1] == blocks@[i - 1]);
            same_bytes(&block.prev_hash, &blocks[i - 1].hash)
        };
        if !named {
            return ChainStatus::Conflict { height: expected, cause: ConflictCause::PrevHashMismatch };
        }
        expected = expected + 1;
        i = i + 1;
    }
    ChainStatus::Valid
}

/// Holds the given blocks, in their order, against the chain that ends in `tip`, and
/// reports the first place where they do not continue it.
///
/// Nothing is changed: both arguments are only read.
pub fn validate_chain(tip: &ChainTip, blocks: &Vec<BlockLink>) -> (status: ChainStatus)
    ensures
        is_chain_status(*tip, blocks@, status),
{
    assert(blocks@.skip(0) =~= blocks@);
    validate_from(tip, blocks, 0)
}

/// Holds the cache against the chain that ends in `tip`: the blocks at the front of
/// the cache that lie at or below the tip are left aside, and every block after them
/// has to continue the chain.
///
/// Nothing is changed: both arguments are only read.
pub fn validate_cache(tip: &ChainTip, cache: &Vec<BlockLink>) -> (status: ChainStatus)
    ensures
        is_chain_status(*tip, above_tip(*tip, cache@), status),
{
    let mut first: usize = 0;
    assert(cache@.skip(0) =~= cache@);
    while first < cache.len() && cache[first].height <= tip.height
        invariant
            first <= cache@.len(),
            below_tip(*tip, cache@) == first + below_tip(*tip, cache@.skip(first as int)),
        decreases cache@.len() - first,
    {
        assert(cache@.skip(first as int)[0] == cache@[first as int]);
        assert(cache@.skip(first as int).drop_first() =~= cache@.skip(first + 1));
        first = first + 1;
    }
    proof {
        if first < cache@.len() {
            assert(cache@.skip(first as int)[0] == cache@[first as int]);
        }
        assert(below_tip(*tip, cache@.skip(first as int)) == 0);
    }
    validate_from(tip, cache, first)
}

/// The number that tells the status of the chain: `NO_CONFLICT` for a valid chain, the height of
/// the conflict for a broken one, and `NOT_VALIDATED` where the stores could not be read.
pub fn chain_code(outcome: &Result<ChainStatus, Error>) -> (code: i64)
    ensures
        code == (match *outcome {
            Ok(ChainStatus::Valid) => NO_CONFLICT,
            Ok(ChainStatus::Conflict { height, .. }) => height,
            Err(_) => NOT_VALIDATED,
        }),
{
    match outcome {
        Ok(ChainStatus::Valid) => NO_CONFLICT,
        Ok(ChainStatus::Conflict { height, .. }) => *height,
        Err(_) => NOT_VALIDATED,
    }
}

/// The status as a result: a conflict is a failure of the chain's continuity.
pub fn chain_result(status: ChainStatus) -> (r: Result<(), Error>)
    ensures
        match status {
            ChainStatus::Valid => r is Ok,
            ChainStatus::Conflict { height, .. } => r == Err::<(), Error>(
                (Error::ChainConflict { height }),
            ),
        },
{
    match status {
        ChainStatus::Valid => Ok(()),
        ChainStatus::Conflict { height, .. } => Err(Error::ChainConflict { height }),
    }
}

/// The cached blocks have one status only.
pub proof fn lemma_chain_status_unique(
    tip: ChainTip,
    blocks: Seq<BlockLink>,
    a: ChainStatus,
    b: ChainStatus,
)
    requires
        is_chain_status(tip, blocks, a),
        is_chain_status(tip, blocks, b),
    ensures
        a == b,
{
}

/// Where the blocks below index `k` continue the chain and the block at `k`, at the
/// right height, names another block as the one before it, the status is a conflict
/// at the height of that block, whatever follows it in the cache.
pub proof fn lemma_tampered_prev_hash(
    tip: ChainTip,
    blocks: Seq<BlockLink>,
    k: int,
    status: ChainStatus,
)
    requires
        0 <= k < blocks.len(),
        forall|j: int| 0 <= j < k ==> links(tip, blocks, j),
        height_follows(tip, blocks, k),
        !hash_follows(tip, blocks, k),
        is_chain_status(tip, blocks, status),
    ensures
        status matches ChainStatus::Conflict { height, cause } && height == tip.height + 1 + k
            && cause == ConflictCause::PrevHashMismatch,
        blocks[k].height == tip.height + 1 + k,
{
    lemma_linked_heights(tip, blocks, k);
    assert(!links(tip, blocks, k));
    match status {
        ChainStatus::Valid => {},
        ChainStatus::Conflict { height, cause } => {
            let i = height - tip.height - 1;
            if i < k {
                assert(links(tip, blocks, i));
            } else if i > k {
                assert(links(tip, blocks, k));
            }
        },
    }
}

/// Blocks that continue the chain stand at the heights that follow the tip's.
pub proof fn lemma_linked_heights(tip: ChainTip, blocks: Seq<BlockLink>, k: int)
    requires
        0 <= k < blocks.len(),
        forall|j: int| 0 <= j < k ==> links(tip, blocks, j),
    ensures
        height_before(tip, blocks, k) == tip.height + k,
    decreases k,
{
    if k > 0 {
        lemma_linked_heights(tip, blocks, k - 1);
        assert(links(tip, blocks, k - 1));
    }
}

} // verus!
