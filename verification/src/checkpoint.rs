//! The block from which a new wallet starts, as a caller names it.

use vstd::prelude::*;
use vstd::utf8::*;
use crate::error::{ArgumentError, Field};
use crate::text::{hex_bytes, hex_decode, is_hex, utf8_text};

verus! {

/// The number of bytes of a block hash.
pub const HASH_LEN: usize = 32;

/// A block that the wallet takes as scanned without having seen it.
#[derive(Clone, Debug, PartialEq, Eq)]
pub struct Checkpoint {
    /// The height of the block.
    pub height: i32,
    /// The hash of the block, in the byte order of the block header.
    pub hash: Vec<u8>,
    /// The time of the block.
    pub time: u32,
    /// The encoded note commitment tree as of the end of the block.
    pub sapling_tree: Vec<u8>,
}

/// The first thing wrong with the two hexadecimal texts of a checkpoint. The hash is
/// looked at first, and must spell 32 bytes.
pub open spec fn checkpoint_fault(hash_hex: Seq<u8>, tree_hex: Seq<u8>) -> Option<ArgumentError> {
    if !valid_utf8(hash_hex) {
        Some(ArgumentError::NotUtf8(Field::BlockHash))
    } else if !is_hex(hash_hex) {
        Some(ArgumentError::NotHex(Field::BlockHash))
    } else if hex_bytes(hash_hex).len() != HASH_LEN {
        Some(ArgumentError::HashLength)
    } else if !valid_utf8(tree_hex) {
        Some(ArgumentError::NotUtf8(Field::TreeState))
    } else if !is_hex(tree_hex) {
        Some(ArgumentError::NotHex(Field::TreeState))
    } else {
        None
    }
}

/// The bytes of `bytes` from the last to the first.
pub fn reversed(bytes: &Vec<u8>) -> (r: Vec<u8>)
    ensures
        r@ == bytes@.reverse(),
{
    let mut r: Vec<u8> = Vec::new();
    let mut left: usize = bytes.len();
    while left > 0
        invariant
            left <= bytes@.len(),
            r@.len() == bytes@.len() - left,
            forall|i: int| 0 <= i < r@.len() ==> r@[i] == bytes@[bytes@.len() - 1 - i],
        decreases left,
    {
        left = left - 1;
        r.push(bytes[left]);
    }
    assert(r@ =~= bytes@.reverse());
    r
}

/// Reads a checkpoint whose hash and tree state are written in hexadecimal.
///
/// The hash is written as block explorers show it, that is from its last byte to its
/// first, and is turned round here. The checkpoint is refused with the first fault that
/// `checkpoint_fault` finds.
pub fn checkpoint_from_hex(height: i32, hash_hex: &[u8], time: u32, tree_hex: &[u8]) -> (r: Result<
    Checkpoint,
    ArgumentError,
>)
    ensures
        match checkpoint_fault(hash_hex@, tree_hex@) {
            Some(e) => r == Err::<Checkpoint, ArgumentError>(e),
            None => r matches Ok(c) && c.height == height && c.time == time && c.hash@ == hex_bytes(
                hash_hex@,
            ).reverse() && c.hash@.len() == HASH_LEN && c.sapling_tree@ == hex_bytes(tree_hex@),
        },
{
    if utf8_text(hash_hex).is_none() {
        return Err(ArgumentError::NotUtf8(Field::BlockHash));
    }
    let hash = match hex_decode(hash_hex) {
        Some(bytes) => reversed(&bytes),
        None => {
            return Err(ArgumentError::NotHex(Field::BlockHash));
        },
    };
    if hash.len() != HASH_LEN {
        return Err(ArgumentError::HashLength);
    }
    if utf8_text(tree_hex).is_none() {
        return Err(ArgumentError::NotUtf8(Field::TreeState));
    }
    match hex_decode(tree_hex) {
        Some(sapling_tree) => Ok(Checkpoint { height, hash, time, sapling_tree }),
        None => Err(ArgumentError::NotHex(Field::TreeState)),
    }
}

} // verus!
