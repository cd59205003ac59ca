//! Hexadecimal text: what it means, and the `hex` crate's two directions.

use vstd::prelude::*;

verus! {

/// The error of `hex::decode`.
#[verifier::external_type_specification]
#[verifier::external_body]
pub struct ExFromHexError(hex::FromHexError);

/// The lower-case digit of a value below sixteen.
pub open spec fn hex_digit(value: int) -> char {
    if value < 10 {
        (('0' as int) + value) as char
    } else {
        (('a' as int) + value - 10) as char
    }
}

/// The value of a hexadecimal digit of either case.
pub open spec fn digit_value(c: char) -> Option<int> {
    if '0' <= c <= '9' {
        Some(c as int - '0' as int)
    } else if 'a' <= c <= 'f' {
        Some(c as int - 'a' as int + 10)
    } else if 'A' <= c <= 'F' {
        Some(c as int - 'A' as int + 10)
    } else {
        None
    }
}

/// The lower-case hexadecimal text of `bytes`, two digits for each byte.
pub open spec fn hex_text(bytes: Seq<u8>) -> Seq<char> {
    Seq::new(
        2 * bytes.len(),
        |i: int| hex_digit(if i % 2 == 0 { bytes[i / 2] as int / 16 } else { bytes[i / 2] as int % 16 }),
    )
}

/// Whether `text` is an even number of hexadecimal digits.
pub open spec fn is_hex(text: Seq<char>) -> bool {
    &&& text.len() % 2 == 0
    &&& forall|i: int| 0 <= i < text.len() ==> digit_value(#[trigger] text[i]) is Some
}

/// The byte that two hexadecimal digits write.
pub open spec fn hex_byte(high: char, low: char) -> u8 {
    (16 * digit_value(high)->0 + digit_value(low)->0) as u8
}

/// The bytes that a hexadecimal text writes.
pub open spec fn hex_bytes(text: Seq<char>) -> Seq<u8> {
    Seq::new(text.len() / 2, |i: int| hex_byte(text[2 * i], text[2 * i + 1]))
}

/// `hex::decode`: it succeeds exactly on an even number of hexadecimal digits
/// of either case, and gives the bytes that they write.
#[verifier::external_body]
pub(crate) fn decode_hex(text: &str) -> (decoded: Result<Vec<u8>, hex::FromHexError>)
    ensures
        decoded is Ok <==> is_hex(text@),
        decoded matches Ok(bytes) ==> bytes@ == hex_bytes(text@),
{
    hex::decode(text)
}

/// `hex::encode`: two lower-case digits for each byte.
#[verifier::external_body]
pub(crate) fn encode_hex(bytes: &[u8]) -> (text: String)
    ensures
        text@ == hex_text(bytes@),
{
    hex::encode(bytes)
}

/// Whether `text` writes `count` bytes.
pub open spec fn is_hex_of(text: Seq<char>, count: nat) -> bool {
    is_hex(text) && text.len() == 2 * count
}

/// `Hash::<32>::from_str`: it succeeds exactly on 64 hexadecimal digits, and
/// gives the bytes that they write.
#[verifier::external_body]
pub(crate) fn parse_hash32(text: &str) -> (parsed: Result<[u8; 32], hex::FromHexError>)
    ensures
        parsed is Ok <==> is_hex_of(text@, 32),
        parsed matches Ok(hash) ==> hash@ == hex_bytes(text@),
{
    text.parse::<pallas_crypto::hash::Hash<32>>().map(|hash| *hash)
}

/// `Hash::<28>::from_str`: it succeeds exactly on 56 hexadecimal digits, and
/// gives the bytes that they write.
#[verifier::external_body]
pub(crate) fn parse_hash28(text: &str) -> (parsed: Result<[u8; 28], hex::FromHexError>)
    ensures
        parsed is Ok <==> is_hex_of(text@, 28),
        parsed matches Ok(hash) ==> hash@ == hex_bytes(text@),
{
    text.parse::<pallas_crypto::hash::Hash<28>>().map(|hash| *hash)
}

/// Decoding what was encoded gives the bytes back.
pub proof fn lemma_hex_round_trip(bytes: Seq<u8>)
    ensures
        is_hex(hex_text(bytes)),
        hex_bytes(hex_text(bytes)) == bytes,
{
    let text = hex_text(bytes);
    assert forall|i: int| 0 <= i < bytes.len() implies #[trigger] hex_bytes(text)[i] == bytes[i] by {
        assert((2 * i) / 2 == i && (2 * i + 1) / 2 == i);
        assert((2 * i) % 2 == 0 && (2 * i + 1) % 2 == 1);
        assert(text[2 * i] == hex_digit(bytes[i] as int / 16));
        assert(text[2 * i + 1] == hex_digit(bytes[i] as int % 16));
    }
    assert forall|i: int| 0 <= i < text.len() implies digit_value(#[trigger] text[i]) is Some by {
        assert(0 <= i / 2 < bytes.len());
    }
    assert(hex_bytes(text) =~= bytes);
}

/// Encoding what was decoded from lower-case digits gives the text back.
pub proof fn lemma_hex_text_of_bytes(text: Seq<char>)
    requires
        is_hex(text),
        forall|i: int| 0 <= i < text.len() ==> !('A' <= #[trigger] text[i] <= 'F'),
    ensures
        hex_text(hex_bytes(text)) == text,
{
    let bytes = hex_bytes(text);
    assert(2 * bytes.len() == text.len());
    assert forall|i: int| 0 <= i < text.len() implies #[trigger] hex_text(bytes)[i] == text[i] by {
        let place = i / 2;
        let high = digit_value(text[2 * place])->0;
        let low = digit_value(text[2 * place + 1])->0;
        assert(digit_value(text[2 * place]) is Some && digit_value(text[2 * place + 1]) is Some);
        assert(0 <= high < 16 && 0 <= low < 16);
        assert(bytes[place] == 16 * high + low);
        assert((16 * high + low) / 16 == high && (16 * high + low) % 16 == low);
        assert(hex_digit(digit_value(text[i])->0) == text[i]);
        assert(i == 2 * place || i == 2 * place + 1);
    }
    assert(hex_text(bytes) =~= text);
}

/// The text of some bytes has two digits for each byte, among `0` to `9` and
/// `a` to `f`: sixteen times the first and the second make up the byte.
pub proof fn lemma_hex_text_digits(bytes: Seq<u8>, i: int)
    requires
        0 <= i < bytes.len(),
    ensures
        hex_text(bytes).len() == 2 * bytes.len(),
        ({
            let high = hex_text(bytes)[2 * i];
            let low = hex_text(bytes)[2 * i + 1];
            &&& '0' <= high <= '9' || 'a' <= high <= 'f'
            &&& '0' <= low <= '9' || 'a' <= low <= 'f'
            &&& bytes[i] == 16 * (if high <= '9' {
                high as int - 48
            } else {
                high as int - 87
            }) + (if low <= '9' {
                low as int - 48
            } else {
                low as int - 87
            })
        }),
{
    assert((2 * i) / 2 == i && (2 * i + 1) / 2 == i);
    assert((2 * i) % 2 == 0 && (2 * i + 1) % 2 == 1);
    assert(hex_text(bytes)[2 * i] == hex_digit(bytes[i] as int / 16));
    assert(hex_text(bytes)[2 * i + 1] == hex_digit(bytes[i] as int % 16));
}

/// A text is hexadecimal exactly where it has an even number of characters and
/// each is a digit, or a letter from `a` to `f` of either case.
pub proof fn lemma_hexadecimal_characters(text: Seq<char>)
    ensures
        is_hex(text) <==> text.len() % 2 == 0 && forall|i: int|
            0 <= i < text.len() ==> ('0' <= #[trigger] text[i] <= '9' || 'a' <= text[i] <= 'f' || 'A' <= text[i] <= 'F'),
{
    if is_hex(text) {
        assert forall|i: int| 0 <= i < text.len() implies ('0' <= #[trigger] text[i] <= '9' || 'a' <= text[i] <= 'f' || 'A'
            <= text[i] <= 'F') by {
            assert(digit_value(text[i]) is Some);
        }
    }
}

} // verus!
