//! Memos: the 512 bytes that travel with a note, and the text that they may carry.

use std::str::FromStr;
use vstd::prelude::*;
use vstd::string::*;
use vstd::utf8::*;
use zcash_protocol::memo::Memo;

verus! {

/// The number of bytes of an encoded memo.
pub const MEMO_LEN: usize = 512;

/// The first byte of the memo that says nothing.
pub const EMPTY_MEMO_MARK: u8 = 0xF6;

/// The highest first byte of a memo that carries text.
pub const LAST_TEXT_MARK: u8 = 0xF4;

/// `n` zero bytes.
pub open spec fn zeros(n: int) -> Seq<u8> {
    Seq::new(n as nat, |i: int| 0u8)
}

/// The memo that carries `text`: the text followed by zeros, or, for no text at all,
/// the mark of the empty memo followed by zeros. A text of more than 512 bytes has none.
pub open spec fn memo_encoding(text: Seq<u8>) -> Option<Seq<u8>> {
    if text.len() == 0 {
        Some(seq![EMPTY_MEMO_MARK] + zeros(MEMO_LEN - 1))
    } else if text.len() <= MEMO_LEN {
        Some(text + zeros(MEMO_LEN - text.len()))
    } else {
        None
    }
}

/// `bytes` without the zeros at its end.
pub open spec fn without_trailing_zeros(bytes: Seq<u8>) -> Seq<u8>
    decreases bytes.len(),
{
    if bytes.len() > 0 && bytes.last() == 0 {
        without_trailing_zeros(bytes.drop_last())
    } else {
        bytes
    }
}

/// The text that a stored memo carries. It carries one where it has at most 512 bytes,
/// starts with a byte up to `0xF4` (a memo of zeros alone counts as starting so) and,
/// the zeros at its end apart, is UTF-8.
pub open spec fn memo_text_of(memo: Seq<u8>) -> Option<Seq<char>> {
    let content = without_trailing_zeros(memo);
    if memo.len() > MEMO_LEN {
        None
    } else if content.len() == 0 {
        Some(Seq::empty())
    } else if content[0] <= LAST_TEXT_MARK && valid_utf8(content) {
        Some(decode_utf8(content))
    } else {
        None
    }
}

/// Encodes a text as a memo.
///
/// Trusted: `Memo::from_str` of `zcash_protocol` refuses a text of more than 512 bytes,
/// makes the empty memo of the empty text and a text memo of any other; `Memo::encode`
/// writes the first as `0xF6` and 511 zeros, the second as the text's bytes filled up
/// with zeros to 512.
#[verifier::external_body]
pub(crate) fn encode_memo(text: &str) -> (memo: Option<Vec<u8>>)
    ensures
        memo is Some <==> memo_encoding(text.spec_bytes()) is Some,
        memo matches Some(m) ==> Some(m@) == memo_encoding(text.spec_bytes()),
{
    match Memo::from_str(text) {
        Ok(memo) => Some(memo.encode().as_array().to_vec()),
        Err(_) => None,
    }
}

/// Reads the text out of a stored memo.
///
/// Trusted: `Memo::from_bytes` of `zcash_protocol` refuses more than 512 bytes, fills
/// shorter input up with zeros, and goes by the first byte: up to `0xF4` the memo is
/// text, namely the bytes without the zeros at the end, read as UTF-8, and a failure if
/// they are not UTF-8; any other first byte makes a memo that is no text.
#[verifier::external_body]
pub(crate) fn decode_memo_text(memo: &[u8]) -> (text: Option<String>)
    ensures
        text is Some <==> memo_text_of(memo@) is Some,
        text matches Some(t) ==> Some(t@) == memo_text_of(memo@),
{
    match Memo::from_bytes(memo) {
        Ok(Memo::Text(text)) => Some(String::from(text)),
        Ok(Memo::Empty) => None,
        Ok(Memo::Future(_)) => None,
        Ok(Memo::Arbitrary(_)) => None,
        Err(_) => None,
    }
}

/// The text of a memo as it is shown: the text that the memo carries, and the empty
/// text for a note without memo and for a memo that carries none, such as one whose
/// bytes are not UTF-8.
pub open spec fn shown_memo(memo: Option<Seq<u8>>) -> Seq<char> {
    match memo {
        Some(bytes) => match memo_text_of(bytes) {
            Some(text) => text,
            None => Seq::empty(),
        },
        None => Seq::empty(),
    }
}

/// The text to show for the memo of a note.
pub fn memo_text(memo: Option<&[u8]>) -> (text: String)
    ensures
        text@ == shown_memo(
            match memo {
                Some(bytes) => Some(bytes@),
                None => None,
            },
        ),
{
    match memo {
        Some(bytes) => memo_or_default(decode_memo_text(bytes)),
        None => String::new(),
    }
}

/// The text that was found, or the empty text.
pub fn memo_or_default(memo: Option<String>) -> (text: String)
    ensures
        text@ == (match memo {
            Some(t) => t@,
            None => Seq::<char>::empty(),
        }),
{
    match memo {
        Some(text) => text,
        None => String::new(),
    }
}

/// A memo whose bytes, the zeros at its end apart, are not UTF-8 is shown as the empty
/// text.
pub proof fn lemma_invalid_utf8_memo_is_empty(memo: Seq<u8>)
    requires
        !valid_utf8(without_trailing_zeros(memo)),
    ensures
        memo_text_of(memo) is None,
        shown_memo(Some(memo)) == Seq::<char>::empty(),
{
    let content = without_trailing_zeros(memo);
    if content.len() == 0 {
        assert(content =~= Seq::<u8>::empty());
        assert(valid_utf8(Seq::<u8>::empty())) by {
            reveal_with_fuel(valid_utf8, 1);
        }
    }
}

} // verus!
