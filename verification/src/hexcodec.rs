//! Hexadecimal text encoding of byte strings, as done by the `hex` crate.

use vstd::prelude::*;
use vstd::utf8::{encode_utf8, is_ascii_chars, is_ascii_chars_encode_utf8};

verus! {

/// Value of an ASCII hexadecimal digit (either case), if `c` is one.
pub open spec fn hex_digit_value(c: u8) -> Option<u8> {
    if 48 <= c <= 57 {
        Some((c - 48) as u8)
    } else if 97 <= c <= 102 {
        Some((c - 87) as u8)
    } else if 65 <= c <= 70 {
        Some((c - 55) as u8)
    } else {
        None
    }
}

/// `s` is a hex string: even length and only hexadecimal digits.
pub open spec fn hex_decodes(s: Seq<u8>) -> bool {
    &&& s.len() % 2 == 0
    &&& forall|i: int| 0 <= i < s.len() ==> (#[trigger] hex_digit_value(s[i])) is Some
}

/// The bytes that the hex string `s` stands for, two digits per byte,
/// high nibble first.
pub open spec fn hex_decode_spec(s: Seq<u8>) -> Seq<u8> {
    Seq::new(
        s.len() / 2,
        |i: int|
            (hex_digit_value(s[2 * i])->0 * 16 + hex_digit_value(s[2 * i + 1])->0) as u8,
    )
}

/// The lower-case hexadecimal digit for a nibble `n < 16`.
pub open spec fn hex_digit(n: int) -> char {
    if n < 10 {
        (n + 48) as char
    } else {
        (n + 87) as char
    }
}

/// The lower-case hex text of `b`: two digits per byte, high nibble first.
pub open spec fn hex_encode_spec(b: Seq<u8>) -> Seq<char> {
    Seq::new(
        2 * b.len(),
        |i: int|
            if i % 2 == 0 {
                hex_digit(b[i / 2] as int / 16)
            } else {
                hex_digit(b[i / 2] as int % 16)
            },
    )
}

/// The bytes of a string of ASCII characters.
pub open spec fn ascii_bytes(s: Seq<char>) -> Seq<u8> {
    Seq::new(s.len(), |i: int| s[i] as u8)
}

/// Calls `hex::decode`. The contract claims that the crate accepts exactly
/// the even-length strings of hexadecimal digits (of either case) and returns
/// one byte per pair of digits, high nibble first.
#[verifier::external_body]
pub(crate) fn hex_decode(data: &[u8]) -> (r: Option<Vec<u8>>)
    ensures
        r is Some <==> hex_decodes(data@),
        r matches Some(v) ==> v@ == hex_decode_spec(data@),
{
    hex::decode(data).ok()
}

/// Calls `hex::encode`. The contract claims that the result is the
/// lower-case hex text of `data`, two digits per byte, high nibble first.
#[verifier::external_body]
pub(crate) fn hex_encode(data: &[u8]) -> (r: String)
    ensures
        r@ == hex_encode_spec(data@),
{
    hex::encode(data)
}

/// Decoding the hex text that encoding produced gives back the bytes:
/// `hex::decode(hex::encode(b)) == Ok(b)`.
pub proof fn lemma_hex_round_trip(b: Seq<u8>)
    ensures
        hex_decodes(ascii_bytes(hex_encode_spec(b))),
        hex_decode_spec(ascii_bytes(hex_encode_spec(b))) == b,
{
    let s = ascii_bytes(hex_encode_spec(b));
    assert forall|i: int| 0 <= i < s.len() implies (#[trigger] hex_digit_value(s[i])) is Some
        && hex_digit_value(s[i])->0 == (if i % 2 == 0 { b[i / 2] as int / 16 } else { b[i / 2] as int % 16 }) by {
        let n: int = if i % 2 == 0 { b[i / 2] as int / 16 } else { b[i / 2] as int % 16 };
        assert(0 <= n < 16);
    }
    assert forall|j: int| 0 <= j < b.len() implies #[trigger] hex_decode_spec(s)[j] == b[j] by {
        assert(hex_digit_value(s[2 * j]) is Some);
        assert(hex_digit_value(s[2 * j + 1]) is Some);
        assert((2 * j) % 2 == 0);
        assert((2 * j + 1) % 2 == 1);
        assert((2 * j) / 2 == j);
        assert((2 * j + 1) / 2 == j);
        let x = b[j] as int;
        assert(x / 16 * 16 + x % 16 == x);
    }
    assert(hex_decode_spec(s) =~= b);
}

/// Hex text is ASCII: its UTF-8 bytes are its characters, one byte each.
pub proof fn lemma_hex_text_bytes(b: Seq<u8>)
    ensures
        is_ascii_chars(hex_encode_spec(b)),
        encode_utf8(hex_encode_spec(b)) == ascii_bytes(hex_encode_spec(b)),
        encode_utf8(hex_encode_spec(b)).len() == 2 * b.len(),
{
    let t = hex_encode_spec(b);
    assert forall|i: int| 0 <= i < t.len() implies '\0' <= #[trigger] t[i] <= '\u{7f}' by {
        let n: int = if i % 2 == 0 { b[i / 2] as int / 16 } else { b[i / 2] as int % 16 };
        assert(0 <= n < 16);
    }
    is_ascii_chars_encode_utf8(t);
    assert(encode_utf8(t) =~= ascii_bytes(t));
}

} // verus!
