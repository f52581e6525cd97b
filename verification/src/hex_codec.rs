//! Hexadecimal text as the service stores and receives it: keys travel as
//! hex in headers and are stored as lowercase hex; vaults must be hex.
//! The encoding and decoding themselves are done by the `hex` crate.

use vstd::prelude::*;

verus! {

/// The lowercase hexadecimal digit for a value below sixteen.
pub open spec fn lower_hex_digit(n: int) -> char {
    if n < 10 {
        (n + 48) as char
    } else {
        (n + 87) as char
    }
}

/// The value of a hexadecimal digit, upper or lower case, or `-1` for any
/// other character.
pub open spec fn hex_digit_value(c: char) -> int {
    let n = c as u32;
    if 48 <= n <= 57 {
        n - 48
    } else if 97 <= n <= 102 {
        n - 87
    } else if 65 <= n <= 70 {
        n - 55
    } else {
        -1
    }
}

/// Every character is a hexadecimal digit and they come in pairs.
pub open spec fn is_hex_text(s: Seq<char>) -> bool {
    &&& s.len() % 2 == 0
    &&& forall|i: int| 0 <= i < s.len() ==> hex_digit_value(#[trigger] s[i]) >= 0
}

/// Two lowercase digits per byte, high nibble first.
pub open spec fn hex_encoding(bytes: Seq<u8>) -> Seq<char> {
    Seq::new(
        2 * bytes.len(),
        |i: int|
            if i % 2 == 0 {
                lower_hex_digit(bytes[i / 2] as int / 16)
            } else {
                lower_hex_digit(bytes[i / 2] as int % 16)
            },
    )
}

/// The bytes that a hex text stands for, one per pair of digits.
pub open spec fn hex_decoding(s: Seq<char>) -> Seq<u8> {
    Seq::new(
        s.len() / 2,
        |i: int| (hex_digit_value(s[2 * i]) * 16 + hex_digit_value(s[2 * i + 1])) as u8,
    )
}

/// Decoding gives back what encoding was given, and encoded text is valid hex.
pub proof fn lemma_hex_roundtrip(bytes: Seq<u8>)
    ensures
        is_hex_text(hex_encoding(bytes)),
        hex_encoding(bytes).len() == 2 * bytes.len(),
        hex_decoding(hex_encoding(bytes)) == bytes,
{
    let e = hex_encoding(bytes);
    assert forall|i: int| 0 <= i < e.len() implies hex_digit_value(#[trigger] e[i]) >= 0 by {
        let b = bytes[i / 2];
        if i % 2 == 0 {
            assert(0 <= b / 16 < 16);
        } else {
            assert(0 <= b % 16 < 16);
        }
    }
    let d = hex_decoding(e);
    assert forall|i: int| 0 <= i < bytes.len() implies #[trigger] d[i] == bytes[i] by {
        let b = bytes[i];
        assert((2 * i) / 2 == i);
        assert((2 * i + 1) / 2 == i);
        assert((2 * i) % 2 == 0);
        assert((2 * i + 1) % 2 == 1);
        assert(hex_digit_value(e[2 * i]) == b / 16);
        assert(hex_digit_value(e[2 * i + 1]) == b % 16);
    }
    assert(d =~= bytes);
}

/// Distinct byte strings have distinct encodings.
pub proof fn lemma_hex_encoding_injective(a: Seq<u8>, b: Seq<u8>)
    ensures
        hex_encoding(a) == hex_encoding(b) ==> a == b,
{
    lemma_hex_roundtrip(a);
    lemma_hex_roundtrip(b);
}

#[verifier::external_type_specification]
#[verifier::external_body]
pub struct ExFromHexError(hex::FromHexError);

/// Calls `hex::encode`, which writes each byte as two lowercase hex digits,
/// high nibble first. The contract claims exactly that of the returned text.
#[verifier::external_body]
pub(crate) fn encode_lower(data: &[u8]) -> (text: String)
    ensures
        text@ == hex_encoding(data@),
{
    hex::encode(data)
}

/// Calls `hex::decode_to_slice` with a 32-byte buffer. The crate fails on an
/// odd length, on a length other than twice the buffer's, and on a byte that
/// is not a hex digit of either case; otherwise it fills the buffer pair by
/// pair. The contract claims when it succeeds and what the buffer then holds;
/// what the buffer holds after a failure is left unsaid.
#[verifier::external_body]
pub(crate) fn decode_to_key(text: &str, out: &mut [u8; 32]) -> (r: Result<(), hex::FromHexError>)
    ensures
        r is Ok <==> (text@.len() == 64 && is_hex_text(text@)),
        r is Ok ==> final(out)@ == hex_decoding(text@),
{
    hex::decode_to_slice(text, out)
}

/// Calls `hex::decode`, which fails on an odd length or on a byte that is not
/// a hex digit of either case, and otherwise returns one byte per pair of
/// digits. The contract claims when it succeeds and the bytes it returns.
#[verifier::external_body]
pub(crate) fn decode_text(text: &str) -> (r: Result<Vec<u8>, hex::FromHexError>)
    ensures
        r is Ok <==> is_hex_text(text@),
        r matches Ok(bytes) ==> bytes@ == hex_decoding(text@),
{
    hex::decode(text)
}

} // verus!
