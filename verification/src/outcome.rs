//! What a store operation handed back, turned into what the caller is told.

use vstd::prelude::*;
use crate::error::{Error, Operation};
use crate::unwrap_exc_or;

verus! {

/// The number that reports success.
pub const DONE: i32 = 1;

/// The number that reports failure where success is `DONE`.
pub const FAILED: i32 = 0;

/// The number that reports failure where success is an amount or a row.
pub const NO_VALUE: i64 = -1;

/// Why the accounts could not be written.
#[derive(Clone, Debug, PartialEq, Eq)]
pub enum AccountsFault {
    /// The wallet has its accounts already.
    TableNotEmpty,
    /// Anything else, in the store's words.
    Other(String),
}

/// The result of an operation on a store: what it gave, or a failure of that
/// operation with the store's words as its cause.
pub fn store_outcome<T>(operation: Operation, outcome: Result<T, String>) -> (r: Result<T, Error>)
    ensures
        match outcome {
            Ok(value) => r == Ok::<T, Error>(value),
            Err(cause) => r == Err::<T, Error>((Error::Store { operation, cause })),
        },
{
    match outcome {
        Ok(value) => Ok(value),
        Err(cause) => Err(Error::Store { operation, cause }),
    }
}

/// The result of writing the accounts. That the wallet has its accounts already is no
/// failure.
pub fn accounts_outcome(outcome: Result<(), AccountsFault>) -> (r: Result<(), Error>)
    ensures
        match outcome {
            Ok(_) => r is Ok,
            Err(AccountsFault::TableNotEmpty) => r is Ok,
            Err(AccountsFault::Other(cause)) => r == Err::<(), Error>(
                (Error::Store { operation: Operation::InitAccounts, cause }),
            ),
        },
{
    match outcome {
        Ok(_) => Ok(()),
        Err(AccountsFault::TableNotEmpty) => Ok(()),
        Err(AccountsFault::Other(cause)) => Err(
            Error::Store { operation: Operation::InitAccounts, cause },
        ),
    }
}

/// The result of taking the wallet back to `height`.
pub fn rewind_outcome(height: i32, outcome: Result<(), String>) -> (r: Result<(), Error>)
    ensures
        match outcome {
            Ok(_) => r is Ok,
            Err(cause) => r == Err::<(), Error>((Error::Rewind { target: height, cause })),
        },
{
    match outcome {
        Ok(_) => Ok(()),
        Err(cause) => Err(Error::Rewind { target: height, cause }),
    }
}

/// The number that tells whether an operation without a result went well.
pub fn status_code(outcome: &Result<(), Error>) -> (code: i32)
    ensures
        code == (if outcome is Ok {
            DONE
        } else {
            FAILED
        }),
{
    let done: Result<i32, ()> = match outcome {
        Ok(_) => Ok(DONE),
        Err(_) => Err(()),
    };
    unwrap_exc_or(done, FAILED)
}

/// The number that tells an amount or a row, or that there is none.
pub fn value_code(outcome: &Result<i64, Error>) -> (code: i64)
    ensures
        code == (match *outcome {
            Ok(value) => value,
            Err(_) => NO_VALUE,
        }),
{
    let value: Result<i64, ()> = match outcome {
        Ok(value) => Ok(*value),
        Err(_) => Err(()),
    };
    unwrap_exc_or(value, NO_VALUE)
}

} // verus!
