//! Hex encoding of byte strings, as used for the nonce, ciphertext and tag
//! fields of a chat envelope and for the handshake challenge.
//!
//! The executable encoding and decoding are done by the `hex` crate behind
//! two trusted wrappers; the spec functions here say exactly what those
//! calls return, and the round-trip lemma is proved from the specs alone.

use vstd::prelude::*;
use vstd::utf8::encode_utf8;

verus! {

/// ASCII code of a hexadecimal digit: `0`-`9`, `a`-`f` or `A`-`F`.
pub open spec fn is_hex_digit(b: u8) -> bool {
    (0x30 <= b && b <= 0x39) || (0x61 <= b && b <= 0x66) || (0x41 <= b && b <= 0x46)
}

/// Numeric value of a hexadecimal digit (either case).
pub open spec fn hex_digit_value(b: u8) -> u8 {
    if 0x30 <= b && b <= 0x39 {
        (b - 0x30) as u8
    } else if 0x61 <= b && b <= 0x66 {
        (b - 0x61 + 10) as u8
    } else {
        (b - 0x41 + 10) as u8
    }
}

/// Lower-case ASCII digit for a value below 16.
pub open spec fn hex_digit_char(v: u8) -> u8 {
    if v < 10 {
        (0x30 + v) as u8
    } else {
        (0x57 + v) as u8
    }
}

/// The lower-case hex encoding of `data`: two digits per byte, high nibble
/// first.
pub open spec fn hex_of(data: Seq<u8>) -> Seq<u8> {
    Seq::new(
        data.len() * 2,
        |i: int|
            if i % 2 == 0 {
                hex_digit_char(data[i / 2] / 16)
            } else {
                hex_digit_char(data[i / 2] % 16)
            },
    )
}

/// A byte string that decodes as hex: even length, hex digits throughout.
pub open spec fn valid_hex(s: Seq<u8>) -> bool {
    s.len() % 2 == 0 && forall|i: int| 0 <= i < s.len() ==> is_hex_digit(#[trigger] s[i])
}

/// The bytes that a valid hex string decodes to.
pub open spec fn hex_decoded(s: Seq<u8>) -> Seq<u8> {
    Seq::new(s.len() / 2, |i: int| (hex_digit_value(s[2 * i]) * 16 + hex_digit_value(s[2 * i + 1])) as u8)
}

/// A valid hex string in its canonical spelling: re-encoding its decoded
/// bytes gives the string back, which holds exactly of lower-case digits.
pub open spec fn canonical_hex(s: Seq<u8>) -> bool {
    valid_hex(s) && s == hex_of(hex_decoded(s))
}

/// The UTF-8 bytes of a string value; for ASCII strings these are the
/// character codes themselves.
pub open spec fn str_bytes(s: Seq<char>) -> Seq<u8> {
    encode_utf8(s)
}

/// An encoding is always itself a valid hex string.
pub proof fn lemma_hex_of_valid(data: Seq<u8>)
    ensures
        valid_hex(hex_of(data)),
        hex_of(data).len() == data.len() * 2,
{
    assert forall|i: int| 0 <= i < hex_of(data).len() implies is_hex_digit(
        #[trigger] hex_of(data)[i],
    ) by {
        assert(0 <= i / 2 < data.len());
    }
}

/// Decoding inverts encoding: the hex digits of `data` decode back to
/// `data` itself.
pub proof fn lemma_hex_round_trip(data: Seq<u8>)
    ensures
        hex_decoded(hex_of(data)) == data,
{
    let h = hex_of(data);
    assert forall|i: int| 0 <= i < data.len() implies hex_decoded(h)[i] == data[i] by {
        assert(h[2 * i] == hex_digit_char(data[i] / 16));
        assert(h[2 * i + 1] == hex_digit_char(data[i] % 16));
        assert(hex_digit_value(hex_digit_char(data[i] / 16)) == data[i] / 16);
        assert(hex_digit_value(hex_digit_char(data[i] % 16)) == data[i] % 16);
        assert(data[i] / 16 * 16 + data[i] % 16 == data[i]);
    }
    assert(hex_decoded(h) =~= data);
}

/// An encoding is canonical: it is valid hex, and re-encoding its decoded
/// bytes gives it back, so it is all lower case.
pub proof fn lemma_hex_of_canonical(data: Seq<u8>)
    ensures
        canonical_hex(hex_of(data)),
{
    lemma_hex_of_valid(data);
    lemma_hex_round_trip(data);
}

/// Relies on `hex::encode`: encodes each input byte as exactly two
/// lower-case hex digits, high nibble first.
#[verifier::external_body]
pub fn hex_encode(data: &[u8]) -> (r: String)
    ensures
        str_bytes(r@) == hex_of(data@),
        r@.len() == data@.len() * 2,
        vstd::utf8::is_ascii_chars(r@),
{
    hex::encode(data)
}

/// Relies on `hex::decode`: accepts an even number of hex digits of either
/// case and returns the decoded bytes; rejects any other input.
#[verifier::external_body]
pub fn hex_decode(s: &str) -> (r: Option<Vec<u8>>)
    ensures
        match r {
            Some(b) => valid_hex(str_bytes(s@)) && b@ == hex_decoded(str_bytes(s@)),
            None => !valid_hex(str_bytes(s@)),
        },
{
    hex::decode(s).ok()
}

} // verus!
