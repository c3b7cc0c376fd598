//! BCS (Binary Canonical Serialization) of the argument values the CLI
//! sends, through the `bcs` crate.

use vstd::prelude::*;
use crate::uleb128::{uleb128, decode_uleb128};
use vstd::string::StringSliceAdditionalSpecFns;

verus! {

/// Longest sequence BCS will encode or decode.
pub const MAX_SEQUENCE_LENGTH: usize = 2147483647;

/// The `n` least significant bytes of `v`, least significant first.
pub open spec fn le_bytes(v: nat, n: nat) -> Seq<u8>
    decreases n,
{
    if n == 0 {
        Seq::empty()
    } else {
        seq![(v % 256) as u8] + le_bytes(v / 256, (n - 1) as nat)
    }
}

/// The number whose little-endian bytes are `s`.
pub open spec fn le_value(s: Seq<u8>) -> nat
    decreases s.len(),
{
    if s.len() == 0 {
        0
    } else {
        (s[0] + 256 * le_value(s.drop_first())) as nat
    }
}

/// BCS of a byte sequence: its length in ULEB128, then the bytes.
pub open spec fn bcs_seq(b: Seq<u8>) -> Seq<u8> {
    uleb128(b.len()) + b
}

/// The byte sequence whose BCS encoding is all of `data`, if there is one.
pub open spec fn bcs_seq_decode(data: Seq<u8>) -> Option<Seq<u8>> {
    match decode_uleb128(data) {
        Some((n, k)) => if n <= MAX_SEQUENCE_LENGTH && data.subrange(0, k as int) == uleb128(n)
            && data.len() == k + n {
            Some(data.subrange(k as int, data.len() as int))
        } else {
            None
        },
        None => None,
    }
}

/// BCS of a boolean.
pub open spec fn bcs_bool(b: bool) -> Seq<u8> {
    if b {
        seq![1u8]
    } else {
        seq![0u8]
    }
}

pub proof fn lemma_le_bytes_len(v: nat, n: nat)
    ensures
        le_bytes(v, n).len() == n,
    decreases n,
{
    if n > 0 {
        lemma_le_bytes_len(v / 256, (n - 1) as nat);
    }
}

/// Reading little-endian bytes back gives the number, when it fits.
pub proof fn lemma_le_roundtrip(v: nat, n: nat)
    requires
        v < vstd::arithmetic::power::pow(256, n),
    ensures
        le_value(le_bytes(v, n)) == v,
    decreases n,
{
    reveal(vstd::arithmetic::power::pow);
    if n > 0 {
        let s = le_bytes(v, n);
        assert(v / 256 < vstd::arithmetic::power::pow(256, (n - 1) as nat)) by {
            vstd::arithmetic::div_mod::lemma_div_by_multiple_is_strongly_ordered(
                v as int,
                vstd::arithmetic::power::pow(256, n),
                vstd::arithmetic::power::pow(256, (n - 1) as nat),
                256,
            );
            vstd::arithmetic::div_mod::lemma_fundamental_div_mod(v as int, 256);
            vstd::arithmetic::mul::lemma_mul_is_commutative(256, vstd::arithmetic::power::pow(256, (n - 1) as nat));
            vstd::arithmetic::div_mod::lemma_div_by_multiple(vstd::arithmetic::power::pow(256, (n - 1) as nat), 256);
            vstd::arithmetic::div_mod::lemma_div_is_ordered(v as int, vstd::arithmetic::power::pow(256, n) - 1, 256);
        }
        lemma_le_roundtrip(v / 256, (n - 1) as nat);
        assert(s.drop_first() =~= le_bytes(v / 256, (n - 1) as nat));
        vstd::arithmetic::div_mod::lemma_fundamental_div_mod(v as int, 256);
    }
}

/// A byte sequence's BCS encoding decodes back to it.
pub proof fn lemma_bcs_seq_roundtrip(b: Seq<u8>)
    requires
        b.len() <= MAX_SEQUENCE_LENGTH,
    ensures
        bcs_seq_decode(bcs_seq(b)) == Some(b),
{
    let data = bcs_seq(b);
    crate::uleb128::lemma_uleb128_roundtrip(b.len(), b);
    assert(data.subrange(0, uleb128(b.len()).len() as int) =~= uleb128(b.len()));
    assert(data.subrange(uleb128(b.len()).len() as int, data.len() as int) =~= b);
}

/// Calls `bcs::to_bytes` on a `u8`: the single byte.
#[verifier::external_body]
pub(crate) fn bcs_encode_u8(v: u8) -> (r: Result<Vec<u8>, bcs::Error>)
    ensures
        r is Ok,
        r matches Ok(b) ==> b@ == le_bytes(v as nat, 1),
{
    bcs::to_bytes(&v)
}

/// Calls `bcs::to_bytes` on a `u16`: its two bytes, little-endian.
#[verifier::external_body]
pub(crate) fn bcs_encode_u16(v: u16) -> (r: Result<Vec<u8>, bcs::Error>)
    ensures
        r is Ok,
        r matches Ok(b) ==> b@ == le_bytes(v as nat, 2),
{
    bcs::to_bytes(&v)
}

/// Calls `bcs::to_bytes` on a `u32`: its four bytes, little-endian.
#[verifier::external_body]
pub(crate) fn bcs_encode_u32(v: u32) -> (r: Result<Vec<u8>, bcs::Error>)
    ensures
        r is Ok,
        r matches Ok(b) ==> b@ == le_bytes(v as nat, 4),
{
    bcs::to_bytes(&v)
}

/// Calls `bcs::to_bytes` on a `u64`: its eight bytes, little-endian.
#[verifier::external_body]
pub(crate) fn bcs_encode_u64(v: u64) -> (r: Result<Vec<u8>, bcs::Error>)
    ensures
        r is Ok,
        r matches Ok(b) ==> b@ == le_bytes(v as nat, 8),
{
    bcs::to_bytes(&v)
}

/// Calls `bcs::to_bytes` on a `u128`: its sixteen bytes, little-endian.
#[verifier::external_body]
pub(crate) fn bcs_encode_u128(v: u128) -> (r: Result<Vec<u8>, bcs::Error>)
    ensures
        r is Ok,
        r matches Ok(b) ==> b@ == le_bytes(v as nat, 16),
{
    bcs::to_bytes(&v)
}

/// Calls `bcs::to_bytes` on a `bool`: one byte, 1 or 0.
#[verifier::external_body]
pub(crate) fn bcs_encode_bool(v: bool) -> (r: Result<Vec<u8>, bcs::Error>)
    ensures
        r is Ok,
        r matches Ok(b) ==> b@ == bcs_bool(v),
{
    bcs::to_bytes(&v)
}

/// Calls `bcs::to_bytes` on a `str`: the ULEB128 length of its UTF-8 bytes,
/// then the bytes; an error when there are more than `MAX_SEQUENCE_LENGTH`.
#[verifier::external_body]
pub(crate) fn bcs_encode_str(s: &str) -> (r: Result<Vec<u8>, bcs::Error>)
    ensures
        r is Ok <==> s.spec_bytes().len() <= MAX_SEQUENCE_LENGTH,
        r matches Ok(b) ==> b@ == bcs_seq(s.spec_bytes()),
{
    bcs::to_bytes(s)
}

/// Calls `bcs::to_bytes` on a `Vec<u8>`: the ULEB128 length, then the
/// bytes; an error when there are more than `MAX_SEQUENCE_LENGTH`.
#[verifier::external_body]
pub(crate) fn bcs_encode_bytes(v: &Vec<u8>) -> (r: Result<Vec<u8>, bcs::Error>)
    ensures
        r is Ok <==> v@.len() <= MAX_SEQUENCE_LENGTH,
        r matches Ok(b) ==> b@ == bcs_seq(v@),
{
    bcs::to_bytes(v)
}

/// Calls `bcs::to_bytes` on a `[u8; 32]`: the 32 bytes, with no length.
#[verifier::external_body]
pub(crate) fn bcs_encode_array32(v: &[u8; 32]) -> (r: Result<Vec<u8>, bcs::Error>)
    ensures
        r is Ok,
        r matches Ok(b) ==> b@ == v@,
{
    bcs::to_bytes(v)
}

/// Calls `bcs::from_bytes` for a `u8`: exactly one byte.
#[verifier::external_body]
pub(crate) fn bcs_decode_u8(data: &[u8]) -> (r: Result<u8, bcs::Error>)
    ensures
        r is Ok <==> data@.len() == 1,
        r matches Ok(v) ==> v as nat == le_value(data@),
{
    bcs::from_bytes(data)
}

/// Calls `bcs::from_bytes` for a `u16`: exactly two bytes, little-endian.
#[verifier::external_body]
pub(crate) fn bcs_decode_u16(data: &[u8]) -> (r: Result<u16, bcs::Error>)
    ensures
        r is Ok <==> data@.len() == 2,
        r matches Ok(v) ==> v as nat == le_value(data@),
{
    bcs::from_bytes(data)
}

/// Calls `bcs::from_bytes` for a `u32`: exactly four bytes, little-endian.
#[verifier::external_body]
pub(crate) fn bcs_decode_u32(data: &[u8]) -> (r: Result<u32, bcs::Error>)
    ensures
        r is Ok <==> data@.len() == 4,
        r matches Ok(v) ==> v as nat == le_value(data@),
{
    bcs::from_bytes(data)
}

/// Calls `bcs::from_bytes` for a `u64`: exactly eight bytes, little-endian.
#[verifier::external_body]
pub(crate) fn bcs_decode_u64(data: &[u8]) -> (r: Result<u64, bcs::Error>)
    ensures
        r is Ok <==> data@.len() == 8,
        r matches Ok(v) ==> v as nat == le_value(data@),
{
    bcs::from_bytes(data)
}

/// Calls `bcs::from_bytes` for a `u128`: exactly sixteen bytes, little-endian.
#[verifier::external_body]
pub(crate) fn bcs_decode_u128(data: &[u8]) -> (r: Result<u128, bcs::Error>)
    ensures
        r is Ok <==> data@.len() == 16,
        r matches Ok(v) ==> v as nat == le_value(data@),
{
    bcs::from_bytes(data)
}

/// Calls `bcs::from_bytes` for a `bool`: exactly one byte, 0 or 1.
#[verifier::external_body]
pub(crate) fn bcs_decode_bool(data: &[u8]) -> (r: Result<bool, bcs::Error>)
    ensures
        r is Ok <==> (data@.len() == 1 && data@[0] <= 1),
        r matches Ok(v) ==> v == (data@[0] == 1),
{
    bcs::from_bytes(data)
}

/// Calls `bcs::from_bytes` for a `Vec<u8>`: a canonical ULEB128 length no
/// more than `MAX_SEQUENCE_LENGTH`, then exactly that many bytes.
#[verifier::external_body]
pub(crate) fn bcs_decode_bytes(data: &[u8]) -> (r: Result<Vec<u8>, bcs::Error>)
    ensures
        r is Ok <==> bcs_seq_decode(data@) is Some,
        r matches Ok(v) ==> bcs_seq_decode(data@) == Some(v@),
{
    bcs::from_bytes(data)
}

/// Calls `bcs::from_bytes` for a `[u8; 32]`: exactly 32 bytes.
#[verifier::external_body]
pub(crate) fn bcs_decode_array32(data: &[u8]) -> (r: Result<[u8; 32], bcs::Error>)
    ensures
        r is Ok <==> data@.len() == 32,
        r matches Ok(v) ==> v@ == data@,
{
    bcs::from_bytes(data)
}

} // verus!
