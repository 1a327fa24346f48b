//! The words in which a failure is told to the caller.

use vstd::prelude::*;
use vstd::string::*;
use crate::error::{ArgumentError, Error, Field, Operation};

verus! {

/// The character that stands for a digit.
pub open spec fn digit_char(d: int) -> char {
    if d == 0 {
        '0'
    } else if d == 1 {
        '1'
    } else if d == 2 {
        '2'
    } else if d == 3 {
        '3'
    } else if d == 4 {
        '4'
    } else if d == 5 {
        '5'
    } else if d == 6 {
        '6'
    } else if d == 7 {
        '7'
    } else if d == 8 {
        '8'
    } else {
        '9'
    }
}

/// A natural number written in decimal, without leading zeros.
pub open spec fn decimal(n: nat) -> Seq<char>
    decreases n,
{
    if n < 10 {
        seq![digit_char(n as int)]
    } else {
        decimal(n / 10) + seq![digit_char((n % 10) as int)]
    }
}

/// An integer written in decimal, with a minus sign where it is negative.
pub open spec fn signed_decimal(n: int) -> Seq<char> {
    if n < 0 {
        seq!['-'] + decimal((-n) as nat)
    } else {
        decimal(n as nat)
    }
}

fn digit_text(d: u128) -> (t: &'static str)
    requires
        d < 10,
    ensures
        t@ == seq![digit_char(d as int)],
{
    proof {
        reveal_strlit("0");
        reveal_strlit("1");
        reveal_strlit("2");
        reveal_strlit("3");
        reveal_strlit("4");
        reveal_strlit("5");
        reveal_strlit("6");
        reveal_strlit("7");
        reveal_strlit("8");
        reveal_strlit("9");
    }
    let t = if d == 0 {
        "0"
    } else if d == 1 {
        "1"
    } else if d == 2 {
        "2"
    } else if d == 3 {
        "3"
    } else if d == 4 {
        "4"
    } else if d == 5 {
        "5"
    } else if d == 6 {
        "6"
    } else if d == 7 {
        "7"
    } else if d == 8 {
        "8"
    } else {
        "9"
    };
    assert(t@ =~= seq![digit_char(d as int)]);
    t
}

/// Writes `n` in decimal at the end of `text`.
pub fn push_decimal(text: &mut String, n: u128)
    ensures
        final(text)@ == old(text)@ + decimal(n as nat),
    decreases n,
{
    if n >= 10 {
        push_decimal(text, n / 10);
    }
    text.append(digit_text(n % 10));
    assert(final(text)@ =~= old(text)@ + decimal(n as nat));
}

/// Writes `n` in decimal at the end of `text`, with its sign.
pub fn push_signed_decimal(text: &mut String, n: i64)
    ensures
        final(text)@ == old(text)@ + signed_decimal(n as int),
{
    if n < 0 {
        proof {
            reveal_strlit("-");
        }
        text.append("-");
        let magnitude: u128 = if n == i64::MIN {
            0x8000_0000_0000_0000u128
        } else {
            (0 - n) as u128
        };
        push_decimal(text, magnitude);
        assert(final(text)@ =~= old(text)@ + signed_decimal(n as int));
    } else {
        push_decimal(text, n as u128);
    }
}

/// How a field is called in a message.
pub open spec fn field_name(field: Field) -> Seq<char> {
    match field {
        Field::BlockHash => "Block hash"@,
        Field::TreeState => "Tree state"@,
        Field::SpendingKey => "ExtendedSpendingKey"@,
        Field::Recipient => "PaymentAddress"@,
        Field::Memo => "Memo"@,
    }
}

/// The words for a refused argument.
pub open spec fn argument_message(e: ArgumentError) -> Seq<char> {
    match e {
        ArgumentError::NegativeAccountCount => "accounts argument must be positive"@,
        ArgumentError::NegativeAccount => "account argument must be positive"@,
        ArgumentError::NotUtf8(field) => field_name(field) + " is not valid UTF-8"@,
        ArgumentError::NotHex(field) => field_name(field) + " is not valid hexadecimal"@,
        ArgumentError::HashLength => "Block hash must have 32 bytes"@,
        ArgumentError::SeedTooShort => "ZIP 32 seeds MUST be at least 32 bytes"@,
        ArgumentError::NoKeyForAccount(account) => "No spending key can be derived for account "@
            + decimal(account as nat),
        ArgumentError::AmountOutOfRange => "Invalid amount, out of range"@,
        ArgumentError::AmountNotPositive => "Amount must be positive"@,
        ArgumentError::KeyWrongNetwork => "ExtendedSpendingKey is for the wrong network"@,
        ArgumentError::KeyMalformed => "Invalid ExtendedSpendingKey"@,
        ArgumentError::RecipientWrongNetwork => "PaymentAddress is for the wrong network"@,
    }
}

/// The words that come before the cause of a store failure.
pub open spec fn operation_prefix(operation: Operation) -> Seq<char> {
    match operation {
        Operation::InitDataDb => "Error while initializing data DB: "@,
        Operation::InitAccounts => "Error while initializing accounts: "@,
        Operation::InitBlocks => "Error while initializing blocks table: "@,
        Operation::FetchAddress => "Error while fetching address: "@,
        Operation::FetchBalance => "Error while fetching balance: "@,
        Operation::FetchVerifiedBalance => "Error while fetching verified balance: "@,
        Operation::FetchMemo => "Error while fetching memo: "@,
        Operation::ValidateChain => "Error while validating chain: "@,
        Operation::Scan => "Error while scanning blocks: "@,
        Operation::Send => "Error while sending funds: "@,
    }
}

/// The words for a failure.
pub open spec fn message_of(e: Error) -> Seq<char> {
    match e {
        Error::Argument(a) => argument_message(a),
        Error::Store { operation, cause } => operation_prefix(operation) + cause@,
        Error::Rewind { target, cause } => "Error while rewinding data DB to height "@
            + signed_decimal(target as int) + ": "@ + cause@,
        Error::ChainConflict { height } => "Invalid chain: conflict at height "@
            + signed_decimal(height as int),
        Error::ScanGap { expected, found } => "Error while scanning blocks: expected height "@
            + signed_decimal(expected as int) + ", found "@ + decimal(found as nat),
        Error::InsufficientFunds { available, required } =>
            "Error while sending funds: insufficient balance (have "@ + decimal(available as nat)
            + ", need "@ + decimal(required as nat) + ")"@,
    }
}

fn field_text(field: Field) -> (t: &'static str)
    ensures
        t@ == field_name(field),
{
    match field {
        Field::BlockHash => "Block hash",
        Field::TreeState => "Tree state",
        Field::SpendingKey => "ExtendedSpendingKey",
        Field::Recipient => "PaymentAddress",
        Field::Memo => "Memo",
    }
}

fn operation_text(operation: Operation) -> (t: &'static str)
    ensures
        t@ == operation_prefix(operation),
{
    match operation {
        Operation::InitDataDb => "Error while initializing data DB: ",
        Operation::InitAccounts => "Error while initializing accounts: ",
        Operation::InitBlocks => "Error while initializing blocks table: ",
        Operation::FetchAddress => "Error while fetching address: ",
        Operation::FetchBalance => "Error while fetching balance: ",
        Operation::FetchVerifiedBalance => "Error while fetching verified balance: ",
        Operation::FetchMemo => "Error while fetching memo: ",
        Operation::ValidateChain => "Error while validating chain: ",
        Operation::Scan => "Error while scanning blocks: ",
        Operation::Send => "Error while sending funds: ",
    }
}

impl ArgumentError {
    /// The words for this refusal.
    pub fn message(&self) -> (text: String)
        ensures
            text@ == argument_message(*self),
    {
        match self {
            ArgumentError::NegativeAccountCount => String::from_str(
                "accounts argument must be positive",
            ),
            ArgumentError::NegativeAccount => String::from_str("account argument must be positive"),
            ArgumentError::NotUtf8(field) => String::from_str(field_text(*field)).concat(
                " is not valid UTF-8",
            ),
            ArgumentError::NotHex(field) => String::from_str(field_text(*field)).concat(
                " is not valid hexadecimal",
            ),
            ArgumentError::HashLength => String::from_str("Block hash must have 32 bytes"),
            ArgumentError::SeedTooShort => String::from_str("ZIP 32 seeds MUST be at least 32 bytes"),
            ArgumentError::NoKeyForAccount(account) => {
                let mut text = String::from_str("No spending key can be derived for account ");
                push_decimal(&mut text, *account as u128);
                text
            },
            ArgumentError::AmountOutOfRange => String::from_str("Invalid amount, out of range"),
            ArgumentError::AmountNotPositive => String::from_str("Amount must be positive"),
            ArgumentError::KeyWrongNetwork => String::from_str(
                "ExtendedSpendingKey is for the wrong network",
            ),
            ArgumentError::KeyMalformed => String::from_str("Invalid ExtendedSpendingKey"),
            ArgumentError::RecipientWrongNetwork => String::from_str(
                "PaymentAddress is for the wrong network",
            ),
        }
    }
}

impl Error {
    /// The words for this failure.
    pub fn message(&self) -> (text: String)
        ensures
            text@ == message_of(*self),
    {
        match self {
            Error::Argument(a) => a.message(),
            Error::Store { operation, cause } => String::from_str(operation_text(*operation)).concat(
                cause.as_str(),
            ),
            Error::Rewind { target, cause } => {
                let mut text = String::from_str("Error while rewinding data DB to height ");
                push_signed_decimal(&mut text, *target as i64);
                text.append(": ");
                text.append(cause.as_str());
                text
            },
            Error::ChainConflict { height } => {
                let mut text = String::from_str("Invalid chain: conflict at height ");
                push_signed_decimal(&mut text, *height);
                text
            },
            Error::ScanGap { expected, found } => {
                let mut text = String::from_str("Error while scanning blocks: expected height ");
                push_signed_decimal(&mut text, *expected);
                text.append(", found ");
                push_decimal(&mut text, *found as u128);
                text
            },
            Error::InsufficientFunds { available, required } => {
                let mut text = String::from_str(
                    "Error while sending funds: insufficient balance (have ",
                );
                push_decimal(&mut text, *available);
                text.append(", need ");
                push_decimal(&mut text, *required);
                text.append(")");
                text
            },
        }
    }
}

} // verus!
