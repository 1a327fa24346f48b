//! The rules of a shielded light wallet: what a call may ask of the wallet store,
//! whether cached blocks continue the scanned chain, what scanning and rewinding do
//! to the wallet, and what a caller is told when a call fails.

use vstd::prelude::*;

pub mod account;
pub mod chain;
pub mod checkpoint;
pub mod error;
pub mod keys;
pub mod laws;
pub mod memo;
pub mod message;
pub mod model;
pub mod outcome;
pub mod spend;
pub mod text;
pub mod wallet;

verus! {

/// The value carried by `exc`, or `def` where `exc` holds none.
pub fn unwrap_exc_or<T>(exc: Result<T, ()>, def: T) -> (r: T)
    ensures
        r == (match exc {
            Ok(value) => value,
            Err(_) => def,
        }),
{
    match exc {
        Ok(value) => value,
        Err(_) => def,
    }
}

} // verus!
