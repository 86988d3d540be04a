//! Hexadecimal text, as it stands in record keys.

use crate::text::ascii_text;
use vstd::prelude::*;

verus! {

/// The ASCII code of the lowercase digit that stands for `nibble`.
pub open spec fn hex_digit(nibble: int) -> u8 {
    if nibble < 10 {
        (48 + nibble) as u8
    } else {
        (87 + nibble) as u8
    }
}

/// The lowercase hex text of `data`: two digits for each byte, the high
/// half first.
pub open spec fn hex_lower(data: Seq<u8>) -> Seq<u8> {
    Seq::new(
        2 * data.len(),
        |i: int|
            if i % 2 == 0 {
                hex_digit(data[i / 2] as int / 16)
            } else {
                hex_digit(data[i / 2] as int % 16)
            },
    )
}

/// The value of a hex digit given by its ASCII code, in either case.
pub open spec fn hex_value(code: u8) -> Option<int> {
    if 48 <= code <= 57 {
        Some(code - 48)
    } else if 97 <= code <= 102 {
        Some(code - 87)
    } else if 65 <= code <= 70 {
        Some(code - 55)
    } else {
        None
    }
}

/// Every code of `text` is a hex digit.
pub open spec fn is_hex_text(text: Seq<u8>) -> bool {
    forall|i: int| 0 <= i < text.len() ==> (#[trigger] hex_value(text[i])) is Some
}

/// The bytes that a hex text of even length stands for.
pub open spec fn hex_bytes(text: Seq<u8>) -> Seq<u8> {
    Seq::new(
        text.len() / 2,
        |i: int| (16 * hex_value(text[2 * i]).unwrap() + hex_value(text[2 * i + 1]).unwrap()) as u8,
    )
}

/// The error of `const_hex`'s decoding functions. Nothing is claimed of
/// what it holds.
#[verifier::external_type_specification]
#[verifier::external_body]
pub struct ExFromHexError(const_hex::FromHexError);

/// Calls `const_hex::encode`, which renders every byte as two lowercase
/// digits from `0123456789abcdef`, high half first, and nothing else.
#[verifier::external_body]
pub(crate) fn encode_lower(data: &[u8]) -> (text: String)
    ensures
        text@ == ascii_text(hex_lower(data@)),
{
    const_hex::encode(data)
}

/// Calls `const_hex::decode_to_slice` on 64 bytes of text and a buffer of 32
/// bytes. It succeeds exactly when every byte of the text is a hex digit in
/// either case, and then fills the buffer with the decoded bytes. A text
/// that opens with `0x` loses that prefix first and then has the wrong
/// length for the buffer, so it fails like any other text with an `x` in it.
#[verifier::external_body]
pub(crate) fn decode_into_32(text: &[u8]) -> (res: Result<[u8; 32], const_hex::FromHexError>)
    requires
        text@.len() == 64,
    ensures
        res is Ok <==> is_hex_text(text@),
        res matches Ok(bytes) ==> bytes@ == hex_bytes(text@),
{
    let mut bytes = [0u8; 32];
    const_hex::decode_to_slice(text, &mut bytes).map(|()| bytes)
}

/// Reads a 32-byte hash from its hex text: exactly 64 hex digits, in either
/// case.
pub fn decode_hash(text: &[u8]) -> (res: Option<[u8; 32]>)
    ensures
        res is Some <==> text@.len() == 64 && is_hex_text(text@),
        res matches Some(hash) ==> hash@ == hex_bytes(text@),
{
    if text.len() != 64 {
        return None;
    }
    match decode_into_32(text) {
        Ok(hash) => Some(hash),
        Err(_) => None,
    }
}

/// A lowercase digit reads back as the value it was written for.
pub proof fn lemma_hex_digit_value(nibble: int)
    requires
        0 <= nibble < 16,
    ensures
        hex_value(hex_digit(nibble)) == Some(nibble),
{
}

/// The lowercase hex text of any bytes is a hex text of twice their length
/// that reads back as the same bytes.
pub proof fn lemma_hex_round_trip(data: Seq<u8>)
    ensures
        hex_lower(data).len() == 2 * data.len(),
        is_hex_text(hex_lower(data)),
        hex_bytes(hex_lower(data)) == data,
{
    let text = hex_lower(data);
    assert forall|i: int| 0 <= i < text.len() implies (#[trigger] hex_value(text[i])) is Some by {
        let byte = data[i / 2] as int;
        lemma_hex_digit_value(byte / 16);
        lemma_hex_digit_value(byte % 16);
    }
    assert forall|i: int| 0 <= i < data.len() implies hex_bytes(text)[i] == data[i] by {
        let byte = data[i] as int;
        lemma_hex_digit_value(byte / 16);
        lemma_hex_digit_value(byte % 16);
        assert(text[2 * i] == hex_digit(byte / 16));
        assert(text[2 * i + 1] == hex_digit(byte % 16));
    }
    assert(hex_bytes(text) =~= data);
}

} // verus!
