#![allow(deprecated)]

use zcash_client_backend::address::Address;
use zcash_client_backend::encoding::{decode_extended_spending_key, encode_extended_spending_key};
use zcash_client_backend::keys::sapling::spending_key;
use zcash_protocol::consensus::{MAIN_NETWORK, TEST_NETWORK};
use zcash_protocol::constants::{mainnet, testnet};
use zcashlc::account::account_index;
use zcashlc::checkpoint::{checkpoint_from_hex, reversed};
use zcashlc::error::{ArgumentError, Field};
use zcashlc::keys::{admit_account_key, derive_account_keys, KeyDecoding};
use zcashlc::spend::{admit_spend, payment_amount, spend_request, RecipientKind, MAX_MONEY};
use zcashlc::unwrap_exc_or;

const SEED: [u8; 32] = [7; 32];

fn testnet_key(account: u32) -> String {
    let extsk = spending_key(&SEED, testnet::COIN_TYPE, account.try_into().unwrap()).unwrap();
    encode_extended_spending_key(testnet::HRP_SAPLING_EXTENDED_SPENDING_KEY, &extsk)
}

fn mainnet_key() -> String {
    let extsk = spending_key(&SEED, testnet::COIN_TYPE, 0u32.try_into().unwrap()).unwrap();
    encode_extended_spending_key(mainnet::HRP_SAPLING_EXTENDED_SPENDING_KEY, &extsk)
}

fn sapling_address(mainnet: bool) -> String {
    let extsk = spending_key(&SEED, testnet::COIN_TYPE, 1u32.try_into().unwrap()).unwrap();
    let address = Address::Sapling(Box::new(extsk.default_address().1));
    if mainnet {
        address.encode(&MAIN_NETWORK)
    } else {
        address.encode(&TEST_NETWORK)
    }
}

#[test]
fn unwrap_exc_or_gives_the_value_or_the_default() {
    assert_eq!(unwrap_exc_or(Ok(5i64), -1), 5);
    assert_eq!(unwrap_exc_or(Err(()), -1i64), -1);
    assert_eq!(unwrap_exc_or(Ok(String::from("a")), String::new()), "a");
}

#[test]
fn account_index_refuses_negative_accounts() {
    assert_eq!(account_index(0), Ok(0));
    assert_eq!(account_index(i32::MAX), Ok(i32::MAX as u32));
    assert_eq!(account_index(-1), Err(ArgumentError::NegativeAccount));
    assert_eq!(account_index(i32::MIN), Err(ArgumentError::NegativeAccount));
}

#[test]
fn payment_amount_must_be_positive_and_in_range() {
    assert_eq!(payment_amount(1), Ok(1));
    assert_eq!(payment_amount(MAX_MONEY), Ok(MAX_MONEY));
    assert_eq!(payment_amount(0), Err(ArgumentError::AmountNotPositive));
    assert_eq!(payment_amount(-1), Err(ArgumentError::AmountNotPositive));
    assert_eq!(payment_amount(-MAX_MONEY), Err(ArgumentError::AmountNotPositive));
    assert_eq!(payment_amount(MAX_MONEY + 1), Err(ArgumentError::AmountOutOfRange));
    assert_eq!(payment_amount(-MAX_MONEY - 1), Err(ArgumentError::AmountOutOfRange));
    assert_eq!(payment_amount(i64::MIN), Err(ArgumentError::AmountOutOfRange));
    assert_eq!(MAX_MONEY, 2_100_000_000_000_000);
}

#[test]
fn derive_account_keys_refuses_bad_arguments() {
    assert_eq!(derive_account_keys(&SEED, -1), Err(ArgumentError::NegativeAccountCount));
    assert_eq!(derive_account_keys(&[0; 31], 1), Err(ArgumentError::SeedTooShort));
    assert_eq!(derive_account_keys(&[0; 31], 0), Ok(vec![]));
    assert_eq!(derive_account_keys(&[0; 31], -1), Err(ArgumentError::NegativeAccountCount));
}

#[test]
fn derive_account_keys_gives_one_key_for_each_account() {
    let keys = derive_account_keys(&SEED, 3).unwrap();
    assert_eq!(keys, vec![testnet_key(0), testnet_key(1), testnet_key(2)]);
    assert_ne!(keys[0], keys[1]);
    for key in &keys {
        assert!(key.starts_with("secret-extended-key-test1"));
        assert!(
            decode_extended_spending_key(testnet::HRP_SAPLING_EXTENDED_SPENDING_KEY, key).is_ok()
        );
    }
    let longer = derive_account_keys(&[9; 64], 1).unwrap();
    assert_eq!(longer.len(), 1);
    assert_ne!(longer[0], keys[0]);
}

#[test]
fn admit_account_key_reports_the_account_without_key() {
    assert_eq!(admit_account_key(4, None), Err(ArgumentError::NoKeyForAccount(4)));
    assert_eq!(admit_account_key(4, Some(String::from("k"))), Ok(String::from("k")));
}

#[test]
fn spend_request_accepts_a_good_request() {
    let key = testnet_key(0);
    let to = sapling_address(false);
    let request = spend_request(0, key.as_bytes(), to.as_bytes(), 1000, b"hello").unwrap();
    assert_eq!(request.account, 0);
    assert_eq!(request.spending_key, key);
    assert_eq!(request.recipient, to);
    assert_eq!(request.recipient_kind, RecipientKind::Sapling);
    assert_eq!(request.value, 1000);
    let memo = request.memo.unwrap();
    assert_eq!(memo.len(), 512);
    assert_eq!(&memo[..5], b"hello");
    assert!(memo[5..].iter().all(|b| *b == 0));
}

#[test]
fn spend_request_encodes_the_empty_memo() {
    let key = testnet_key(0);
    let to = sapling_address(false);
    let request = spend_request(3, key.as_bytes(), to.as_bytes(), 1, b"").unwrap();
    let memo = request.memo.unwrap();
    assert_eq!(memo.len(), 512);
    assert_eq!(memo[0], 0xF6);
    assert!(memo[1..].iter().all(|b| *b == 0));
    assert_eq!(request.account, 3);
}

#[test]
fn spend_request_leaves_out_a_memo_that_is_too_long() {
    let key = testnet_key(0);
    let to = sapling_address(false);
    let long = vec![b'a'; 513];
    let request = spend_request(0, key.as_bytes(), to.as_bytes(), 1, &long).unwrap();
    assert_eq!(request.memo, None);
    let full = vec![b'a'; 512];
    let request = spend_request(0, key.as_bytes(), to.as_bytes(), 1, &full).unwrap();
    assert_eq!(request.memo, Some(full));
}

#[test]
fn spend_request_knows_other_kinds_of_address() {
    let key = testnet_key(0);
    let tex = Address::Tex([7; 20]).encode(&TEST_NETWORK);
    let request = spend_request(0, key.as_bytes(), tex.as_bytes(), 1, b"").unwrap();
    assert_eq!(request.recipient_kind, RecipientKind::Tex);
    assert_eq!(request.recipient, tex);
}

#[test]
fn spend_request_reports_the_first_fault() {
    let key = testnet_key(0);
    let key = key.as_bytes();
    let to = sapling_address(false);
    let to = to.as_bytes();
    let bad = [0xFFu8, 0xFE];
    assert_eq!(spend_request(-1, &bad, &bad, 0, &bad), Err(ArgumentError::NegativeAccount));
    assert_eq!(
        spend_request(0, &bad, &bad, 0, &bad),
        Err(ArgumentError::NotUtf8(Field::SpendingKey))
    );
    assert_eq!(
        spend_request(0, key, &bad, 0, &bad),
        Err(ArgumentError::NotUtf8(Field::Recipient))
    );
    assert_eq!(
        spend_request(0, key, to, MAX_MONEY + 1, &bad),
        Err(ArgumentError::AmountOutOfRange)
    );
    assert_eq!(spend_request(0, key, to, 0, &bad), Err(ArgumentError::AmountNotPositive));
    assert_eq!(spend_request(0, key, to, -5, &bad), Err(ArgumentError::AmountNotPositive));
    assert_eq!(spend_request(0, key, to, 5, &bad), Err(ArgumentError::NotUtf8(Field::Memo)));
    assert_eq!(
        spend_request(0, b"not a key", b"not an address", 5, b""),
        Err(ArgumentError::KeyMalformed)
    );
    assert_eq!(
        spend_request(0, mainnet_key().as_bytes(), b"not an address", 5, b""),
        Err(ArgumentError::KeyWrongNetwork)
    );
    assert_eq!(
        spend_request(0, key, b"not an address", 5, b""),
        Err(ArgumentError::RecipientWrongNetwork)
    );
    assert_eq!(
        spend_request(0, key, sapling_address(true).as_bytes(), 5, b""),
        Err(ArgumentError::RecipientWrongNetwork)
    );
    assert_eq!(spend_request(0, key, key, 5, b""), Err(ArgumentError::RecipientWrongNetwork));
    assert_eq!(spend_request(0, to, to, 5, b""), Err(ArgumentError::KeyWrongNetwork));
}

#[test]
fn admit_spend_goes_by_what_was_decoded() {
    let key = String::from("key");
    let to = String::from("to");
    assert_eq!(
        admit_spend(1, key.clone(), KeyDecoding::WrongNetwork, to.clone(), None, 5, None),
        Err(ArgumentError::KeyWrongNetwork)
    );
    assert_eq!(
        admit_spend(
            1,
            key.clone(),
            KeyDecoding::Malformed,
            to.clone(),
            Some(RecipientKind::Sapling),
            5,
            None
        ),
        Err(ArgumentError::KeyMalformed)
    );
    assert_eq!(
        admit_spend(1, key.clone(), KeyDecoding::Valid, to.clone(), None, 5, None),
        Err(ArgumentError::RecipientWrongNetwork)
    );
    let request = admit_spend(
        1,
        key.clone(),
        KeyDecoding::Valid,
        to.clone(),
        Some(RecipientKind::Transparent),
        5,
        Some(vec![1, 2]),
    )
    .unwrap();
    assert_eq!(request.account, 1);
    assert_eq!(request.spending_key, key);
    assert_eq!(request.recipient, to);
    assert_eq!(request.recipient_kind, RecipientKind::Transparent);
    assert_eq!(request.value, 5);
    assert_eq!(request.memo, Some(vec![1, 2]));
}

#[test]
fn checkpoint_from_hex_turns_the_hash_round() {
    let hash = "000102030405060708090a0b0c0d0e0f101112131415161718191A1B1C1D1E1F";
    let checkpoint = checkpoint_from_hex(280_000, hash.as_bytes(), 1_500_000_000, b"01ff").unwrap();
    assert_eq!(checkpoint.height, 280_000);
    assert_eq!(checkpoint.time, 1_500_000_000);
    let expected: Vec<u8> = (0u8..32).rev().collect();
    assert_eq!(checkpoint.hash, expected);
    assert_eq!(checkpoint.sapling_tree, vec![0x01, 0xff]);
    let empty_tree = checkpoint_from_hex(-5, hash.as_bytes(), 0, b"").unwrap();
    assert_eq!(empty_tree.sapling_tree, Vec::<u8>::new());
    assert_eq!(empty_tree.height, -5);
}

#[test]
fn checkpoint_from_hex_reports_the_first_fault() {
    let hash = [b'a'; 64];
    let bad = [0xC0u8, 0x80];
    assert_eq!(
        checkpoint_from_hex(1, &bad, 0, &bad),
        Err(ArgumentError::NotUtf8(Field::BlockHash))
    );
    assert_eq!(
        checkpoint_from_hex(1, b"0g", 0, &bad),
        Err(ArgumentError::NotHex(Field::BlockHash))
    );
    assert_eq!(
        checkpoint_from_hex(1, b"abc", 0, &bad),
        Err(ArgumentError::NotHex(Field::BlockHash))
    );
    assert_eq!(checkpoint_from_hex(1, b"abcd", 0, &bad), Err(ArgumentError::HashLength));
    assert_eq!(checkpoint_from_hex(1, b"", 0, &bad), Err(ArgumentError::HashLength));
    assert_eq!(checkpoint_from_hex(1, &[b'a'; 66], 0, b"00"), Err(ArgumentError::HashLength));
    assert_eq!(
        checkpoint_from_hex(1, &hash, 0, &bad),
        Err(ArgumentError::NotUtf8(Field::TreeState))
    );
    assert_eq!(
        checkpoint_from_hex(1, &hash, 0, b"0"),
        Err(ArgumentError::NotHex(Field::TreeState))
    );
    assert_eq!(
        checkpoint_from_hex(1, &hash, 0, b"zz"),
        Err(ArgumentError::NotHex(Field::TreeState))
    );
    assert_eq!(
        checkpoint_from_hex(1, &hash, 0, "\u{e9}\u{e9}".as_bytes()),
        Err(ArgumentError::NotHex(Field::TreeState))
    );
}

#[test]
fn reversed_turns_bytes_round() {
    assert_eq!(reversed(&vec![1, 2, 3]), vec![3, 2, 1]);
    assert_eq!(reversed(&vec![]), Vec::<u8>::new());
    assert_eq!(reversed(&vec![9]), vec![9]);
}
