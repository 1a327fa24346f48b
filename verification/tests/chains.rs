use zcashlc::chain::{
    same_bytes, validate_cache, validate_chain, BlockLink, ChainStatus, ChainTip, ConflictCause,
};

fn hash_at(height: u32) -> Vec<u8> {
    let mut hash = vec![0xAB; 32];
    hash[..4].copy_from_slice(&height.to_le_bytes());
    hash
}

fn chain(from: u32, count: u32) -> Vec<BlockLink> {
    (from..from + count)
        .map(|height| BlockLink {
            height,
            hash: hash_at(height),
            prev_hash: hash_at(height - 1),
        })
        .collect()
}

fn tip(height: u32) -> ChainTip {
    ChainTip { height, hash: Some(hash_at(height)) }
}

#[test]
fn a_linked_cache_is_valid() {
    assert_eq!(validate_chain(&tip(100), &chain(101, 20)), ChainStatus::Valid);
    assert_eq!(validate_chain(&tip(100), &chain(101, 1)), ChainStatus::Valid);
    assert_eq!(validate_chain(&tip(100), &vec![]), ChainStatus::Valid);
    assert_eq!(validate_chain(&tip(0), &chain(1, 3)), ChainStatus::Valid);
}

#[test]
fn a_tampered_prev_hash_is_reported_at_its_height() {
    let scanned = 280_000;
    let mut cache = chain(scanned + 1, 10);
    cache[2].prev_hash[7] ^= 1;
    assert_eq!(cache[2].height, scanned + 3);
    assert_eq!(
        validate_chain(&tip(scanned), &cache),
        ChainStatus::Conflict { height: 280_003, cause: ConflictCause::PrevHashMismatch }
    );
}

#[test]
fn the_lowest_conflict_is_reported() {
    let mut cache = chain(101, 10);
    cache[6].prev_hash = hash_at(1);
    cache[3].prev_hash = hash_at(2);
    cache[8].height = 500;
    assert_eq!(
        validate_chain(&tip(100), &cache),
        ChainStatus::Conflict { height: 104, cause: ConflictCause::PrevHashMismatch }
    );
}

#[test]
fn a_cache_that_does_not_continue_the_scanned_block_conflicts_at_once() {
    let stale = ChainTip { height: 100, hash: Some(hash_at(7)) };
    assert_eq!(
        validate_chain(&stale, &chain(101, 5)),
        ChainStatus::Conflict { height: 101, cause: ConflictCause::PrevHashMismatch }
    );
    let short = ChainTip { height: 100, hash: Some(vec![]) };
    assert_eq!(
        validate_chain(&short, &chain(101, 5)),
        ChainStatus::Conflict { height: 101, cause: ConflictCause::PrevHashMismatch }
    );
}

#[test]
fn a_missing_height_is_a_conflict_at_that_height() {
    let mut cache = chain(101, 5);
    cache.remove(2);
    assert_eq!(
        validate_chain(&tip(100), &cache),
        ChainStatus::Conflict { height: 103, cause: ConflictCause::HeightDiscontinuity }
    );
    assert_eq!(
        validate_chain(&tip(100), &chain(102, 5)),
        ChainStatus::Conflict { height: 101, cause: ConflictCause::HeightDiscontinuity }
    );
    assert_eq!(
        validate_chain(&tip(100), &chain(100, 5)),
        ChainStatus::Conflict { height: 101, cause: ConflictCause::HeightDiscontinuity }
    );
}

#[test]
fn the_height_is_looked_at_before_the_hash() {
    let mut cache = chain(101, 3);
    cache[1].height = 105;
    cache[1].prev_hash = hash_at(9);
    assert_eq!(
        validate_chain(&tip(100), &cache),
        ChainStatus::Conflict { height: 102, cause: ConflictCause::HeightDiscontinuity }
    );
}

#[test]
fn a_tip_without_hash_is_held_against_the_height_only() {
    let trusted = ChainTip { height: 100, hash: None };
    let mut cache = chain(101, 5);
    cache[0].prev_hash = hash_at(77);
    assert_eq!(validate_chain(&trusted, &cache), ChainStatus::Valid);
    cache[1].prev_hash = hash_at(77);
    assert_eq!(
        validate_chain(&trusted, &cache),
        ChainStatus::Conflict { height: 102, cause: ConflictCause::PrevHashMismatch }
    );
}

#[test]
fn nothing_follows_the_highest_height() {
    let last = ChainTip { height: u32::MAX, hash: None };
    let block = BlockLink { height: u32::MAX, hash: hash_at(1), prev_hash: hash_at(0) };
    assert_eq!(
        validate_chain(&last, &vec![block]),
        ChainStatus::Conflict { height: 4_294_967_296, cause: ConflictCause::HeightDiscontinuity }
    );
}

#[test]
fn same_bytes_compares_byte_strings() {
    assert!(same_bytes(&vec![], &vec![]));
    assert!(same_bytes(&vec![1, 2], &vec![1, 2]));
    assert!(!same_bytes(&vec![1, 2], &vec![1, 3]));
    assert!(!same_bytes(&vec![1, 2], &vec![1]));
}

#[test]
fn blocks_at_or_below_the_tip_are_left_aside() {
    // The cache still holds the blocks 95 to 100, which the wallet has scanned.
    let cache = chain(95, 16);
    assert_eq!(validate_cache(&tip(100), &cache), ChainStatus::Valid);
    assert_eq!(
        validate_chain(&tip(100), &cache),
        ChainStatus::Conflict { height: 101, cause: ConflictCause::HeightDiscontinuity }
    );
    assert_eq!(validate_cache(&tip(100), &chain(95, 6)), ChainStatus::Valid);
    assert_eq!(validate_cache(&tip(100), &vec![]), ChainStatus::Valid);
    assert_eq!(validate_cache(&tip(100), &chain(101, 3)), ChainStatus::Valid);
}

#[test]
fn a_cache_is_held_against_the_tip_from_the_first_block_above_it() {
    let scanned = 280_000;
    let mut cache = chain(scanned - 4, 12);
    // Tampering below the tip goes unnoticed; the wallet is the authority there.
    cache[1].prev_hash = hash_at(3);
    assert_eq!(validate_cache(&tip(scanned), &cache), ChainStatus::Valid);
    let at = cache.iter().position(|b| b.height == scanned + 3).unwrap();
    cache[at].prev_hash[0] ^= 0x80;
    assert_eq!(
        validate_cache(&tip(scanned), &cache),
        ChainStatus::Conflict { height: 280_003, cause: ConflictCause::PrevHashMismatch }
    );
    // A block below the tip that comes after one above it breaks the order.
    let mut cache = chain(scanned + 1, 2);
    cache.push(BlockLink { height: scanned, hash: hash_at(scanned), prev_hash: hash_at(1) });
    assert_eq!(
        validate_cache(&tip(scanned), &cache),
        ChainStatus::Conflict { height: 280_003, cause: ConflictCause::HeightDiscontinuity }
    );
    // The first block above the tip has to name the tip.
    let stale = ChainTip { height: scanned, hash: Some(hash_at(5)) };
    assert_eq!(
        validate_cache(&stale, &chain(scanned - 1, 5)),
        ChainStatus::Conflict { height: 280_001, cause: ConflictCause::PrevHashMismatch }
    );
}
