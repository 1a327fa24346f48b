//! Spending keys of the test network: deriving them from a seed, one for each
//! account, and reading them back from their encoded form.
#![allow(deprecated)]

use vstd::prelude::*;
use zcash_client_backend::encoding::{
    decode_extended_spending_key, encode_extended_spending_key, Bech32DecodeError,
};
use zcash_client_backend::keys::sapling::spending_key;
use zcash_protocol::constants::testnet::{COIN_TYPE, HRP_SAPLING_EXTENDED_SPENDING_KEY};
use crate::error::ArgumentError;

verus! {

/// What an encoded spending key turns out to be.
#[derive(Clone, Copy, Debug, PartialEq, Eq, Structural)]
pub enum KeyDecoding {
    /// A spending key of the test network.
    Valid,
    /// Well-formed, but encoded for another network.
    WrongNetwork,
    /// Not the encoding of a spending key.
    Malformed,
}

/// The fewest bytes that a seed may have.
pub const MIN_SEED_LEN: usize = 32;

/// The encoded spending key that a seed yields for an account of the test network,
/// if it yields one: the result of `derive_spending_key`.
pub uninterp spec fn testnet_spending_key(seed: Seq<u8>, account: u32) -> Option<Seq<char>>;

/// What `decode_spending_key` makes of an encoded key.
pub uninterp spec fn testnet_key_decoding(encoded: Seq<char>) -> KeyDecoding;

/// Derives the spending key of `account` from `seed` and encodes it.
///
/// Trusted: `zcash_client_backend::keys::sapling::spending_key`, called with the test
/// network's coin type, and `encode_extended_spending_key` with that network's prefix,
/// compute from the seed and the account alone. The first panics on a seed of fewer
/// than 32 bytes, which `requires` leaves out. No key is given for an account index
/// that has more than 31 bits, nor where the derivation path yields none.
#[verifier::external_body]
pub(crate) fn derive_spending_key(seed: &[u8], account: u32) -> (key: Option<String>)
    requires
        seed@.len() >= MIN_SEED_LEN,
    ensures
        key is Some <==> testnet_spending_key(seed@, account) is Some,
        key matches Some(k) ==> Some(k@) == testnet_spending_key(seed@, account),
{
    let extsk = spending_key(seed, COIN_TYPE, account.try_into().ok()?)?;
    Some(encode_extended_spending_key(HRP_SAPLING_EXTENDED_SPENDING_KEY, &extsk))
}

/// Reads an encoded spending key and says what it is.
///
/// Trusted: `zcash_client_backend::encoding::decode_extended_spending_key`, called with
/// the test network's prefix, decides from the text alone. A prefix that differs from
/// the expected one is reported as `WrongNetwork`, every other failure as `Malformed`.
#[verifier::external_body]
pub(crate) fn decode_spending_key(encoded: &str) -> (decoding: KeyDecoding)
    ensures
        decoding == testnet_key_decoding(encoded@),
{
    match decode_extended_spending_key(HRP_SAPLING_EXTENDED_SPENDING_KEY, encoded) {
        Ok(_) => KeyDecoding::Valid,
        Err(Bech32DecodeError::HrpMismatch { .. }) => KeyDecoding::WrongNetwork,
        Err(Bech32DecodeError::Bech32Error(_)) => KeyDecoding::Malformed,
        Err(Bech32DecodeError::Hrp(_)) => KeyDecoding::Malformed,
        Err(Bech32DecodeError::ReadError) => KeyDecoding::Malformed,
    }
}

/// The key of `account`, or the failure to report where the seed yielded none.
pub fn admit_account_key(account: u32, derived: Option<String>) -> (r: Result<
    String,
    ArgumentError,
>)
    ensures
        derived is None ==> r == Err::<String, ArgumentError>(
            ArgumentError::NoKeyForAccount(account),
        ),
        derived matches Some(k) ==> r == Ok::<String, ArgumentError>(k),
{
    match derived {
        Some(key) => Ok(key),
        None => Err(ArgumentError::NoKeyForAccount(account)),
    }
}

/// `keys` holds the encoded spending keys of the accounts `0 .. keys.len()`, in order.
pub open spec fn are_account_keys(seed: Seq<u8>, keys: Seq<String>) -> bool {
    forall|a: u32|
        a < keys.len() ==> #[trigger] testnet_spending_key(seed, a) == Some(keys[a as int]@)
}

/// The first account below `accounts` for which the seed yields no key.
pub open spec fn is_first_keyless(seed: Seq<u8>, accounts: int, account: u32) -> bool {
    &&& account < accounts
    &&& testnet_spending_key(seed, account) is None
    &&& forall|a: u32| a < account ==> #[trigger] testnet_spending_key(seed, a) is Some
}

/// The encoded spending keys of the accounts `0 .. accounts`, derived from `seed`.
///
/// A negative count is refused, and so is a seed of fewer than 32 bytes as soon as one
/// key is asked for. Where the seed yields no key for some account, the first such
/// account is reported and no key is handed out.
pub fn derive_account_keys(seed: &[u8], accounts: i32) -> (r: Result<Vec<String>, ArgumentError>)
    ensures
        accounts < 0 ==> r == Err::<Vec<String>, ArgumentError>(
            ArgumentError::NegativeAccountCount,
        ),
        accounts > 0 && seed@.len() < MIN_SEED_LEN ==> r == Err::<Vec<String>, ArgumentError>(
            ArgumentError::SeedTooShort,
        ),
        accounts == 0 ==> (r matches Ok(keys) && keys@.len() == 0),
        accounts > 0 && seed@.len() >= MIN_SEED_LEN ==> match r {
            Ok(keys) => keys@.len() == accounts && are_account_keys(seed@, keys@),
            Err(ArgumentError::NoKeyForAccount(a)) => is_first_keyless(seed@, accounts as int, a),
            Err(_) => false,
        },
{
    if accounts < 0 {
        return Err(ArgumentError::NegativeAccountCount);
    }
    let mut keys: Vec<String> = Vec::new();
    if accounts == 0 {
        return Ok(keys);
    }
    if seed.len() < MIN_SEED_LEN {
        return Err(ArgumentError::SeedTooShort);
    }
    let count: u32 = accounts as u32;
    let mut account: u32 = 0;
    while account < count
        invariant
            account <= count,
            count == accounts,
            seed@.len() >= MIN_SEED_LEN,
            keys@.len() == account,
            are_account_keys(seed@, keys@),
        decreases count - account,
    {
        match admit_account_key(account, derive_spending_key(seed, account)) {
            Ok(key) => {
                keys.push(key);
            },
            Err(e) => {
                return Err(e);
            },
        }
        account = account + 1;
    }
    Ok(keys)
}

} // verus!
