use zcashlc::chain::{chain_code, chain_result, ChainStatus, ConflictCause, NOT_VALIDATED, NO_CONFLICT};
use zcashlc::error::{ArgumentError, Error, ErrorClass, Field, Operation};
use zcashlc::outcome::{
    accounts_outcome, rewind_outcome, status_code, store_outcome, value_code, AccountsFault, DONE,
    FAILED, NO_VALUE,
};

fn store_failure(operation: Operation) -> Error {
    Error::Store { operation, cause: String::from("disk full") }
}

#[test]
fn store_outcome_keeps_the_value_or_names_the_operation() {
    assert_eq!(store_outcome(Operation::FetchBalance, Ok(7i64)), Ok(7));
    assert_eq!(
        store_outcome::<i64>(Operation::FetchBalance, Err(String::from("disk full"))),
        Err(store_failure(Operation::FetchBalance))
    );
    assert_eq!(
        store_outcome(Operation::FetchAddress, Ok(String::from("ztestsapling1"))),
        Ok(String::from("ztestsapling1"))
    );
}

#[test]
fn accounts_outcome_tolerates_accounts_that_exist() {
    assert_eq!(accounts_outcome(Ok(())), Ok(()));
    assert_eq!(accounts_outcome(Err(AccountsFault::TableNotEmpty)), Ok(()));
    assert_eq!(
        accounts_outcome(Err(AccountsFault::Other(String::from("disk full")))),
        Err(store_failure(Operation::InitAccounts))
    );
}

#[test]
fn rewind_outcome_names_the_height() {
    assert_eq!(rewind_outcome(5, Ok(())), Ok(()));
    let failure = rewind_outcome(-3, Err(String::from("locked"))).unwrap_err();
    assert_eq!(failure, Error::Rewind { target: -3, cause: String::from("locked") });
    assert_eq!(failure.message(), "Error while rewinding data DB to height -3: locked");
    assert_eq!(failure.class(), ErrorClass::Store);
}

#[test]
fn codes_tell_success_from_failure() {
    assert_eq!(status_code(&Ok(())), 1);
    assert_eq!(status_code(&Err(store_failure(Operation::Scan))), 0);
    assert_eq!(value_code(&Ok(12345)), 12345);
    assert_eq!(value_code(&Ok(0)), 0);
    assert_eq!(value_code(&Err(Error::Argument(ArgumentError::NegativeAccount))), -1);
    assert_eq!((DONE, FAILED, NO_VALUE), (1, 0, -1));
}

#[test]
fn chain_code_tells_the_status() {
    assert_eq!(chain_code(&Ok(ChainStatus::Valid)), -1);
    let conflict = ChainStatus::Conflict { height: 280_003, cause: ConflictCause::PrevHashMismatch };
    assert_eq!(chain_code(&Ok(conflict)), 280_003);
    assert_eq!(chain_code(&Err(store_failure(Operation::ValidateChain))), 0);
    assert_eq!((NO_CONFLICT, NOT_VALIDATED), (-1, 0));
    assert_eq!(chain_result(ChainStatus::Valid), Ok(()));
    assert_eq!(chain_result(conflict), Err(Error::ChainConflict { height: 280_003 }));
}

#[test]
fn every_failure_has_its_class() {
    assert_eq!(Error::Argument(ArgumentError::NegativeAccount).class(), ErrorClass::Argument);
    assert_eq!(Error::Argument(ArgumentError::AmountOutOfRange).class(), ErrorClass::Argument);
    assert_eq!(Error::Argument(ArgumentError::KeyWrongNetwork).class(), ErrorClass::Crypto);
    assert_eq!(Error::Argument(ArgumentError::KeyMalformed).class(), ErrorClass::Crypto);
    assert_eq!(
        Error::Argument(ArgumentError::RecipientWrongNetwork).class(),
        ErrorClass::Argument
    );
    assert_eq!(store_failure(Operation::InitDataDb).class(), ErrorClass::Store);
    assert_eq!(Error::ChainConflict { height: 3 }.class(), ErrorClass::ChainContinuity);
    assert_eq!(Error::ScanGap { expected: 3, found: 5 }.class(), ErrorClass::ScanGap);
    assert_eq!(
        Error::InsufficientFunds { available: 1, required: 2 }.class(),
        ErrorClass::Crypto
    );
}

#[test]
fn every_failure_has_its_words() {
    let cases = [
        (ArgumentError::NegativeAccountCount, "accounts argument must be positive"),
        (ArgumentError::NegativeAccount, "account argument must be positive"),
        (ArgumentError::NotUtf8(Field::Memo), "Memo is not valid UTF-8"),
        (ArgumentError::NotUtf8(Field::SpendingKey), "ExtendedSpendingKey is not valid UTF-8"),
        (ArgumentError::NotUtf8(Field::Recipient), "PaymentAddress is not valid UTF-8"),
        (ArgumentError::NotHex(Field::BlockHash), "Block hash is not valid hexadecimal"),
        (ArgumentError::NotHex(Field::TreeState), "Tree state is not valid hexadecimal"),
        (ArgumentError::HashLength, "Block hash must have 32 bytes"),
        (ArgumentError::SeedTooShort, "ZIP 32 seeds MUST be at least 32 bytes"),
        (ArgumentError::NoKeyForAccount(0), "No spending key can be derived for account 0"),
        (
            ArgumentError::NoKeyForAccount(4_294_967_295),
            "No spending key can be derived for account 4294967295",
        ),
        (ArgumentError::AmountOutOfRange, "Invalid amount, out of range"),
        (ArgumentError::AmountNotPositive, "Amount must be positive"),
        (ArgumentError::KeyWrongNetwork, "ExtendedSpendingKey is for the wrong network"),
        (ArgumentError::KeyMalformed, "Invalid ExtendedSpendingKey"),
        (ArgumentError::RecipientWrongNetwork, "PaymentAddress is for the wrong network"),
    ];
    for (error, words) in cases {
        assert_eq!(error.message(), words);
        assert_eq!(Error::Argument(error).message(), words);
    }
    let stores = [
        (Operation::InitDataDb, "Error while initializing data DB: disk full"),
        (Operation::InitAccounts, "Error while initializing accounts: disk full"),
        (Operation::InitBlocks, "Error while initializing blocks table: disk full"),
        (Operation::FetchAddress, "Error while fetching address: disk full"),
        (Operation::FetchBalance, "Error while fetching balance: disk full"),
        (Operation::FetchVerifiedBalance, "Error while fetching verified balance: disk full"),
        (Operation::FetchMemo, "Error while fetching memo: disk full"),
        (Operation::ValidateChain, "Error while validating chain: disk full"),
        (Operation::Scan, "Error while scanning blocks: disk full"),
        (Operation::Send, "Error while sending funds: disk full"),
    ];
    for (operation, words) in stores {
        assert_eq!(store_failure(operation).message(), words);
    }
    assert_eq!(
        Error::Rewind { target: 280_000, cause: String::from("x") }.message(),
        "Error while rewinding data DB to height 280000: x"
    );
    assert_eq!(
        Error::Rewind { target: i32::MIN, cause: String::new() }.message(),
        "Error while rewinding data DB to height -2147483648: "
    );
    assert_eq!(
        Error::ChainConflict { height: 1009 }.message(),
        "Invalid chain: conflict at height 1009"
    );
    assert_eq!(
        Error::ScanGap { expected: 4_294_967_296, found: 10 }.message(),
        "Error while scanning blocks: expected height 4294967296, found 10"
    );
    assert_eq!(
        Error::InsufficientFunds { available: 0, required: 36_893_488_147_419_103_230 }.message(),
        "Error while sending funds: insufficient balance (have 0, need 36893488147419103230)"
    );
}
