//! What can go wrong in a call, as a value that the caller gets back.

use vstd::prelude::*;
use vstd::string::*;

verus! {

/// A piece of text that a caller hands over as bytes.
#[derive(Clone, Copy, Debug, PartialEq, Eq, Structural)]
pub enum Field {
    BlockHash,
    TreeState,
    SpendingKey,
    Recipient,
    Memo,
}

/// An argument that was refused before the wallet store was touched.
#[derive(Clone, Copy, Debug, PartialEq, Eq, Structural)]
pub enum ArgumentError {
    /// A negative number of accounts was asked for.
    NegativeAccountCount,
    /// A negative account index was given.
    NegativeAccount,
    /// The bytes of the field are not UTF-8.
    NotUtf8(Field),
    /// The field is not an even number of hexadecimal digits.
    NotHex(Field),
    /// The block hash does not have 32 bytes.
    HashLength,
    /// Accounts were asked for with a seed of fewer than 32 bytes.
    SeedTooShort,
    /// The seed yields no spending key for this account.
    NoKeyForAccount(u32),
    /// The amount lies outside the range of money that can exist.
    AmountOutOfRange,
    /// The amount is zero or negative.
    AmountNotPositive,
    /// The spending key is encoded for another network.
    KeyWrongNetwork,
    /// The spending key cannot be decoded at all.
    KeyMalformed,
    /// The recipient is no address of the expected network.
    RecipientWrongNetwork,
}

/// The operations on the two stores, by which a store failure is reported.
#[derive(Clone, Copy, Debug, PartialEq, Eq, Structural)]
pub enum Operation {
    InitDataDb,
    InitAccounts,
    InitBlocks,
    FetchAddress,
    FetchBalance,
    FetchVerifiedBalance,
    FetchMemo,
    ValidateChain,
    Scan,
    Send,
}

/// The classes of failure that a caller has to tell apart.
#[derive(Clone, Copy, Debug, PartialEq, Eq, Structural)]
pub enum ErrorClass {
    /// The call was wrong; nothing was read or written.
    Argument,
    /// A store could not be read or written.
    Store,
    /// The cached chain does not continue the scanned one.
    ChainContinuity,
    /// A height that scanning needs next is missing from the cache.
    ScanGap,
    /// Keys, funds or proofs do not allow the spend.
    Crypto,
}

/// A failed call: its class follows from the variant, its cause is carried in words
/// where an outside component supplied one.
#[derive(Clone, Debug, PartialEq, Eq)]
pub enum Error {
    Argument(ArgumentError),
    /// The store failed during `operation`, and said `cause`.
    Store { operation: Operation, cause: String },
    /// The store could not be taken back to the height `target`, and said `cause`.
    Rewind { target: i32, cause: String },
    /// The cache diverges from the scanned chain at `height`.
    ChainConflict { height: i64 },
    /// Scanning needs the block at `expected`, and the cache goes on with `found`.
    ScanGap { expected: i64, found: u32 },
    /// The unspent notes of the account hold `available`, and `required` is needed.
    InsufficientFunds { available: u128, required: u128 },
}

pub open spec fn is_crypto_argument(e: ArgumentError) -> bool {
    e == ArgumentError::KeyWrongNetwork || e == ArgumentError::KeyMalformed
}

impl Error {
    pub open spec fn class_of(self) -> ErrorClass {
        match self {
            Error::Argument(e) => if is_crypto_argument(e) {
                ErrorClass::Crypto
            } else {
                ErrorClass::Argument
            },
            Error::Store { .. } => ErrorClass::Store,
            Error::Rewind { .. } => ErrorClass::Store,
            Error::ChainConflict { .. } => ErrorClass::ChainContinuity,
            Error::ScanGap { .. } => ErrorClass::ScanGap,
            Error::InsufficientFunds { .. } => ErrorClass::Crypto,
        }
    }

    /// The class of this failure.
    pub fn class(&self) -> (c: ErrorClass)
        ensures
            c == self.class_of(),
    {
        match self {
            Error::Argument(e) => match e {
                ArgumentError::KeyWrongNetwork => ErrorClass::Crypto,
                ArgumentError::KeyMalformed => ErrorClass::Crypto,
                _ => ErrorClass::Argument,
            },
            Error::Store { .. } => ErrorClass::Store,
            Error::Rewind { .. } => ErrorClass::Store,
            Error::ChainConflict { .. } => ErrorClass::ChainContinuity,
            Error::ScanGap { .. } => ErrorClass::ScanGap,
            Error::InsufficientFunds { .. } => ErrorClass::Crypto,
        }
    }
}

} // verus!
