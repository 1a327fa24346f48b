//! What a caller asks for when sending funds, and whether the request can go to the
//! transaction builder.

use vstd::prelude::*;
use vstd::string::*;
use vstd::utf8::*;
use zcash_client_backend::address::Address;
use zcash_protocol::consensus::TEST_NETWORK;
use zcash_protocol::value::ZatBalance;
use crate::account::account_index;
use crate::error::{ArgumentError, Field};
use crate::keys::{decode_spending_key, testnet_key_decoding, KeyDecoding};
use crate::memo::{encode_memo, memo_encoding};
use crate::text::{lemma_text_of_bytes, utf8_text};

verus! {

/// All the money that can exist, in the smallest unit.
pub const MAX_MONEY: i64 = 2_100_000_000_000_000;

/// The kinds of address that funds can be sent to.
#[derive(Clone, Copy, Debug, PartialEq, Eq, Structural)]
pub enum RecipientKind {
    Sapling,
    Transparent,
    Unified,
    Tex,
}

/// A request to send funds that has passed every test on its arguments.
#[derive(Clone, Debug, PartialEq, Eq)]
pub struct SpendRequest {
    /// The account that pays.
    pub account: u32,
    /// The encoded spending key of that account.
    pub spending_key: String,
    /// The encoded address that is paid.
    pub recipient: String,
    /// The kind of that address.
    pub recipient_kind: RecipientKind,
    /// The amount to pay, in the smallest unit.
    pub value: i64,
    /// The encoded memo to send along, if there is one.
    pub memo: Option<Vec<u8>>,
}

/// The kind of address that an encoded recipient is on the test network, if it is one
/// there: the result of `decode_recipient`.
pub uninterp spec fn testnet_recipient(encoded: Seq<char>) -> Option<RecipientKind>;

/// The amount as the outside world's balance type takes it.
///
/// Trusted: `ZatBalance::from_i64` of `zcash_protocol` accepts exactly the amounts from
/// `-MAX_MONEY` to `MAX_MONEY`, and the balance it makes converts back to the amount.
#[verifier::external_body]
pub(crate) fn balance_in_range(value: i64) -> (amount: Option<i64>)
    ensures
        amount == (if -MAX_MONEY <= value <= MAX_MONEY {
            Some(value)
        } else {
            None
        }),
{
    match ZatBalance::from_i64(value) {
        Ok(balance) => Some(i64::from(balance)),
        Err(_) => None,
    }
}

/// Reads an encoded address and says of which kind it is.
///
/// Trusted: `zcash_client_backend::address::Address::decode`, called for the test
/// network, decides from the text alone; it gives nothing for a text that is no
/// address or is one of another network.
#[verifier::external_body]
pub(crate) fn decode_recipient(encoded: &str) -> (kind: Option<RecipientKind>)
    ensures
        kind == testnet_recipient(encoded@),
{
    match Address::decode(&TEST_NETWORK, encoded) {
        Some(Address::Sapling(_)) => Some(RecipientKind::Sapling),
        Some(Address::Transparent(_)) => Some(RecipientKind::Transparent),
        Some(Address::Unified(_)) => Some(RecipientKind::Unified),
        Some(Address::Tex(_)) => Some(RecipientKind::Tex),
        None => None,
    }
}

/// What is wrong with an amount to send, if anything.
pub open spec fn amount_fault(value: i64) -> Option<ArgumentError> {
    if !(-MAX_MONEY <= value <= MAX_MONEY) {
        Some(ArgumentError::AmountOutOfRange)
    } else if value <= 0 {
        Some(ArgumentError::AmountNotPositive)
    } else {
        None
    }
}

/// Accepts an amount to send: it must be positive and at most `MAX_MONEY`.
pub fn payment_amount(value: i64) -> (r: Result<i64, ArgumentError>)
    ensures
        r == (match amount_fault(value) {
            Some(e) => Err::<i64, ArgumentError>(e),
            None => Ok::<i64, ArgumentError>(value),
        }),
{
    match balance_in_range(value) {
        None => Err(ArgumentError::AmountOutOfRange),
        Some(amount) => {
            if amount <= 0 {
                Err(ArgumentError::AmountNotPositive)
            } else {
                Ok(amount)
            }
        },
    }
}

/// What is wrong with the decoded key and recipient of a request, if anything. The key
/// is looked at first.
pub open spec fn party_fault(key: KeyDecoding, recipient: Option<RecipientKind>) -> Option<
    ArgumentError,
> {
    match key {
        KeyDecoding::WrongNetwork => Some(ArgumentError::KeyWrongNetwork),
        KeyDecoding::Malformed => Some(ArgumentError::KeyMalformed),
        KeyDecoding::Valid => match recipient {
            None => Some(ArgumentError::RecipientWrongNetwork),
            Some(_) => None,
        },
    }
}

/// Puts a request together from arguments that were read, once the spending key and
/// the recipient have been decoded: `key` and `recipient` say what they turned out to
/// be.
pub fn admit_spend(
    account: u32,
    spending_key: String,
    key: KeyDecoding,
    recipient: String,
    recipient_kind: Option<RecipientKind>,
    value: i64,
    memo: Option<Vec<u8>>,
) -> (r: Result<SpendRequest, ArgumentError>)
    ensures
        match party_fault(key, recipient_kind) {
            Some(e) => r == Err::<SpendRequest, ArgumentError>(e),
            None => r == Ok::<SpendRequest, ArgumentError>(
                (SpendRequest {
                    account,
                    spending_key,
                    recipient,
                    recipient_kind: recipient_kind.unwrap(),
                    value,
                    memo,
                }),
            ),
        },
{
    match key {
        KeyDecoding::WrongNetwork => Err(ArgumentError::KeyWrongNetwork),
        KeyDecoding::Malformed => Err(ArgumentError::KeyMalformed),
        KeyDecoding::Valid => match recipient_kind {
            None => Err(ArgumentError::RecipientWrongNetwork),
            Some(kind) => Ok(
                SpendRequest { account, spending_key, recipient, recipient_kind: kind, value, memo },
            ),
        },
    }
}

/// The first thing wrong with the arguments of a request, in the order in which they
/// are looked at: the account, the key's and the recipient's bytes, the amount, the
/// memo's bytes, then what the key and the recipient decode to.
pub open spec fn spend_fault(
    account: i32,
    spending_key: Seq<u8>,
    recipient: Seq<u8>,
    value: i64,
    memo: Seq<u8>,
) -> Option<ArgumentError> {
    if account < 0 {
        Some(ArgumentError::NegativeAccount)
    } else if !valid_utf8(spending_key) {
        Some(ArgumentError::NotUtf8(Field::SpendingKey))
    } else if !valid_utf8(recipient) {
        Some(ArgumentError::NotUtf8(Field::Recipient))
    } else if amount_fault(value) is Some {
        amount_fault(value)
    } else if !valid_utf8(memo) {
        Some(ArgumentError::NotUtf8(Field::Memo))
    } else {
        party_fault(
            testnet_key_decoding(decode_utf8(spending_key)),
            testnet_recipient(decode_utf8(recipient)),
        )
    }
}

/// `request` asks for what the arguments say.
pub open spec fn is_request_for(
    request: SpendRequest,
    account: i32,
    spending_key: Seq<u8>,
    recipient: Seq<u8>,
    value: i64,
    memo: Seq<u8>,
) -> bool {
    &&& request.account == account
    &&& request.spending_key@ == decode_utf8(spending_key)
    &&& request.recipient@ == decode_utf8(recipient)
    &&& Some(request.recipient_kind) == testnet_recipient(decode_utf8(recipient))
    &&& request.value == value
    &&& match request.memo {
        Some(m) => Some(m@) == memo_encoding(memo),
        None => memo_encoding(memo) is None,
    }
}

/// Reads the arguments of a request to send `value` from `account` to `recipient`.
///
/// The texts come as bytes. The request is refused with the first fault that
/// `spend_fault` finds; otherwise it is put together as the arguments say. A memo text
/// of more than 512 bytes is left out of the request.
pub fn spend_request(
    account: i32,
    spending_key: &[u8],
    recipient: &[u8],
    value: i64,
    memo: &[u8],
) -> (r: Result<SpendRequest, ArgumentError>)
    ensures
        match spend_fault(account, spending_key@, recipient@, value, memo@) {
            Some(e) => r == Err::<SpendRequest, ArgumentError>(e),
            None => r matches Ok(request) && is_request_for(
                request,
                account,
                spending_key@,
                recipient@,
                value,
                memo@,
            ),
        },
{
    let account = match account_index(account) {
        Ok(index) => index,
        Err(e) => {
            return Err(e);
        },
    };
    let key_text = match utf8_text(spending_key) {
        Some(text) => text,
        None => {
            return Err(ArgumentError::NotUtf8(Field::SpendingKey));
        },
    };
    let recipient_text = match utf8_text(recipient) {
        Some(text) => text,
        None => {
            return Err(ArgumentError::NotUtf8(Field::Recipient));
        },
    };
    let value = match payment_amount(value) {
        Ok(amount) => amount,
        Err(e) => {
            return Err(e);
        },
    };
    let memo_text = match utf8_text(memo) {
        Some(text) => text,
        None => {
            return Err(ArgumentError::NotUtf8(Field::Memo));
        },
    };
    proof {
        lemma_text_of_bytes(key_text, spending_key@);
        lemma_text_of_bytes(recipient_text, recipient@);
    }
    let key = decode_spending_key(key_text);
    let recipient_kind = decode_recipient(recipient_text);
    let memo = encode_memo(memo_text);
    admit_spend(
        account,
        String::from_str(key_text),
        key,
        String::from_str(recipient_text),
        recipient_kind,
        value,
        memo,
    )
}

} // verus!
