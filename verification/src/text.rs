//! Text that arrives as bytes: UTF-8 and hexadecimal digits.

use vstd::prelude::*;
use vstd::string::*;
use vstd::utf8::*;

verus! {

/// The value of one hexadecimal digit, in either case.
pub open spec fn hex_digit_value(digit: u8) -> Option<int> {
    if 0x30 <= digit <= 0x39 {
        Some(digit - 0x30)
    } else if 0x61 <= digit <= 0x66 {
        Some(digit - 0x61 + 10)
    } else if 0x41 <= digit <= 0x46 {
        Some(digit - 0x41 + 10)
    } else {
        None
    }
}

/// An even number of hexadecimal digits.
pub open spec fn is_hex(digits: Seq<u8>) -> bool {
    &&& digits.len() % 2 == 0
    &&& forall|i: int| 0 <= i < digits.len() ==> hex_digit_value(#[trigger] digits[i]) is Some
}

/// The bytes that the digits spell, two digits to a byte, the high one first.
pub open spec fn hex_bytes(digits: Seq<u8>) -> Seq<u8> {
    Seq::new(
        digits.len() / 2,
        |i: int|
            (16 * hex_digit_value(digits[2 * i]).unwrap() + hex_digit_value(
                digits[2 * i + 1],
            ).unwrap()) as u8,
    )
}

/// The text that `bytes` hold, where they are UTF-8.
///
/// Trusted: `core::str::from_utf8` accepts exactly the well-formed UTF-8 byte strings,
/// and the text it gives is made of the very bytes it was given.
#[verifier::external_body]
pub(crate) fn utf8_text<'a>(bytes: &'a [u8]) -> (text: Option<&'a str>)
    ensures
        text is Some <==> valid_utf8(bytes@),
        text matches Some(s) ==> s.spec_bytes() == bytes@,
{
    core::str::from_utf8(bytes).ok()
}

/// The bytes spelled by `digits`, where they are hexadecimal.
///
/// Trusted: `hex::decode` fails on an odd number of digits and on any byte that is
/// no digit `0-9`, `a-f` or `A-F`, and otherwise gives one byte for each two digits,
/// sixteen times the first plus the second.
#[verifier::external_body]
pub(crate) fn hex_decode(digits: &[u8]) -> (bytes: Option<Vec<u8>>)
    ensures
        bytes is Some <==> is_hex(digits@),
        bytes matches Some(b) ==> b@ == hex_bytes(digits@),
{
    hex::decode(digits).ok()
}

/// The characters of a text that `utf8_text` accepted are the decoding of its bytes.
pub proof fn lemma_text_of_bytes(text: &str, bytes: Seq<u8>)
    requires
        text.spec_bytes() == bytes,
    ensures
        text@ == decode_utf8(bytes),
        valid_utf8(bytes),
{
    encode_utf8_decode_utf8(text@);
    encode_utf8_valid_utf8(text@);
}

} // verus!
