//! Hexadecimal text, through the `hex` crate.

use vstd::prelude::*;

verus! {

/// The error type of the `hex` crate.
#[verifier::external_type_specification]
#[verifier::external_body]
pub struct ExFromHexError(hex::FromHexError);

/// `c` is an ASCII hexadecimal digit, upper or lower case.
pub open spec fn is_hex_char(c: char) -> bool {
    ('0' <= c && c <= '9') || ('a' <= c && c <= 'f') || ('A' <= c && c <= 'F')
}

/// The value of the hexadecimal digit `c`.
pub open spec fn hex_char_value(c: char) -> nat {
    if '0' <= c && c <= '9' {
        ((c as u32) - ('0' as u32)) as nat
    } else if 'a' <= c && c <= 'f' {
        ((c as u32) - ('a' as u32) + 10) as nat
    } else {
        ((c as u32) - ('A' as u32) + 10) as nat
    }
}

/// The lower-case hexadecimal digit for `v < 16`.
pub open spec fn hex_digit_lower(v: nat) -> char {
    if v < 10 {
        ((v + ('0' as u32)) as u32) as char
    } else {
        ((v - 10 + ('a' as u32)) as u32) as char
    }
}

/// Every character of `s` is a hexadecimal digit.
pub open spec fn all_hex(s: Seq<char>) -> bool {
    forall|i: int| 0 <= i < s.len() ==> is_hex_char(#[trigger] s[i])
}

/// The bytes that the hexadecimal text `s` stands for: two digits per
/// byte, high digit first; `None` for an odd number of characters or a
/// character that is not a hexadecimal digit.
pub open spec fn spec_hex_decode(s: Seq<char>) -> Option<Seq<u8>> {
    if s.len() % 2 == 0 && all_hex(s) {
        Some(
            Seq::new(
                s.len() / 2,
                |i: int| (hex_char_value(s[2 * i]) * 16 + hex_char_value(s[2 * i + 1])) as u8,
            ),
        )
    } else {
        None
    }
}

/// Lower-case hexadecimal text of `b`, two digits per byte.
pub open spec fn spec_hex_encode(b: Seq<u8>) -> Seq<char> {
    Seq::new(
        2 * b.len(),
        |i: int|
            if i % 2 == 0 {
                hex_digit_lower((b[i / 2] / 16) as nat)
            } else {
                hex_digit_lower((b[i / 2] % 16) as nat)
            },
    )
}

/// Calls `hex::decode` on the UTF-8 bytes of `s`. Claimed: success exactly
/// when `spec_hex_decode` gives bytes, and then those bytes. (The crate
/// works on bytes: any non-ASCII character is made of bytes that are not
/// hexadecimal digits, so it fails there as the character-level statement
/// says, whether or not the byte count is even.)
#[verifier::external_body]
pub(crate) fn hex_decode(s: &str) -> (r: Result<Vec<u8>, hex::FromHexError>)
    ensures
        r is Ok <==> spec_hex_decode(s@) is Some,
        r matches Ok(v) ==> spec_hex_decode(s@) == Some(v@),
{
    hex::decode(s)
}

/// Calls `hex::decode_to_slice` into a 32-byte array. Claimed: success
/// exactly when `s` is 64 hexadecimal digits, and then `out` holds the
/// bytes they stand for. On failure nothing is claimed of `out`.
#[verifier::external_body]
pub(crate) fn hex_decode_to_array32(s: &str, out: &mut [u8; 32]) -> (r: Result<(), hex::FromHexError>)
    ensures
        r is Ok <==> (s@.len() == 64 && all_hex(s@)),
        r is Ok ==> spec_hex_decode(s@) == Some(final(out)@),
{
    hex::decode_to_slice(s, out)
}

/// Calls `hex::encode`: lower-case hexadecimal text of the bytes.
#[verifier::external_body]
pub(crate) fn hex_encode(b: &[u8]) -> (r: String)
    ensures
        r@ == spec_hex_encode(b@),
{
    hex::encode(b)
}

/// Exec test for [`is_hex_char`].
pub fn char_is_hex(c: char) -> (r: bool)
    ensures
        r == is_hex_char(c),
{
    ('0' <= c && c <= '9') || ('a' <= c && c <= 'f') || ('A' <= c && c <= 'F')
}


/// A lower-case digit is a hexadecimal digit of its value.
proof fn lemma_hex_digit_lower(v: nat)
    requires
        v < 16,
    ensures
        is_hex_char(hex_digit_lower(v)),
        hex_char_value(hex_digit_lower(v)) == v,
{
    if v < 10 {
        let x: u32 = (v + ('0' as u32)) as u32;
        assert((x as char) as u32 == x);
    } else {
        let x: u32 = (v - 10 + ('a' as u32)) as u32;
        assert((x as char) as u32 == x);
    }
}

/// Hexadecimal text reads back as the bytes it was written from.
pub proof fn lemma_hex_roundtrip(b: Seq<u8>)
    ensures
        all_hex(spec_hex_encode(b)),
        spec_hex_decode(spec_hex_encode(b)) == Some(b),
{
    let t = spec_hex_encode(b);
    assert forall|i: int| 0 <= i < t.len() implies is_hex_char(#[trigger] t[i]) by {
        lemma_hex_digit_lower((b[i / 2] / 16) as nat);
        lemma_hex_digit_lower((b[i / 2] % 16) as nat);
    }
    let d = spec_hex_decode(t)->0;
    assert forall|i: int| 0 <= i < b.len() implies d[i] == b[i] by {
        assert(t[2 * i] == hex_digit_lower((b[i] / 16) as nat));
        assert(t[2 * i + 1] == hex_digit_lower((b[i] % 16) as nat));
        lemma_hex_digit_lower((b[i] / 16) as nat);
        lemma_hex_digit_lower((b[i] % 16) as nat);
    }
    assert(d =~= b);
}

} // verus!
