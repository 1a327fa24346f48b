//! Account indices as a caller gives them.

use vstd::prelude::*;
use crate::error::ArgumentError;

verus! {

/// The index of the account that a caller names: the number itself, unless it is
/// negative.
pub fn account_index(account: i32) -> (r: Result<u32, ArgumentError>)
    ensures
        account < 0 ==> r == Err::<u32, ArgumentError>(ArgumentError::NegativeAccount),
        account >= 0 ==> r == Ok::<u32, ArgumentError>(account as u32),
{
    if account >= 0 {
        Ok(account as u32)
    } else {
        Err(ArgumentError::NegativeAccount)
    }
}

} // verus!
