//! The JSON form of a typed argument: its BCS bytes read back as values of
//! its type, nested in arrays as deep as its vector depth, and written as
//! `serde_json` writes those values.

use vstd::prelude::*;
use crate::arg::{ArgWithType, FunctionArgType, JsonValue};
use crate::bcs_codec::{
    MAX_SEQUENCE_LENGTH, le_bytes, le_value, lemma_le_bytes_len, lemma_le_roundtrip, bcs_decode_array32, bcs_decode_bool, bcs_decode_u8,
    bcs_decode_u16, bcs_decode_u32, bcs_decode_u64, bcs_decode_u128,
};
use crate::decimal::{decimal_text, u64_to_decimal};
use crate::errors::CliError;
use crate::hex_codec::{hex_encode, spec_hex_encode};
use crate::keys::utf8_decode;
use crate::text::concat_text;
use crate::uleb128::{uleb128, decode_uleb128, write_u64_as_uleb128};
use vstd::utf8::{decode_utf8, encode_utf8, encode_utf8_decode_utf8, encode_utf8_valid_utf8, valid_utf8};
use crate::bcs_codec::bcs_seq;
use crate::uleb128::lemma_uleb128_roundtrip;

verus! {

/// A JSON value as the contracts speak of it.
pub enum JsonModel {
    Null,
    Bool(bool),
    Number(Seq<char>),
    String(Seq<char>),
    Array(Seq<JsonModel>),
    Object,
}

/// The JSON value `v` stands for.
pub open spec fn json_model(v: JsonValue) -> JsonModel
    decreases v, 0nat,
{
    match v {
        JsonValue::Null => JsonModel::Null,
        JsonValue::Bool(b) => JsonModel::Bool(b),
        JsonValue::Number(n) => JsonModel::Number(n@),
        JsonValue::String(s) => JsonModel::String(s@),
        JsonValue::Array(items) => JsonModel::Array(items_model(items@)),
        JsonValue::Object => JsonModel::Object,
    }
}

/// The JSON values `items` stand for, in order.
pub open spec fn items_model(items: Seq<JsonValue>) -> Seq<JsonModel>
    decreases items, 1nat,
{
    if items.len() == 0 {
        Seq::empty()
    } else {
        items_model(items.drop_last()).push(json_model(items.last()))
    }
}

/// A JSON number, written in decimal.
pub open spec fn number(v: nat) -> JsonModel {
    JsonModel::Number(decimal_text(v))
}

/// Bytes as a JSON array of numbers.
pub open spec fn bytes_model(b: Seq<u8>) -> Seq<JsonModel> {
    b.map_values(|x: u8| number(x as nat))
}

/// The number of bytes BCS writes for a value of a fixed-size type.
pub open spec fn fixed_size(t: FunctionArgType) -> Option<nat> {
    match t {
        FunctionArgType::U8 => Some(1nat),
        FunctionArgType::Bool => Some(1nat),
        FunctionArgType::U16 => Some(2nat),
        FunctionArgType::U32 => Some(4nat),
        FunctionArgType::U64 => Some(8nat),
        FunctionArgType::U128 => Some(16nat),
        FunctionArgType::Address => Some(32nat),
        FunctionArgType::U256 => Some(32nat),
        _ => None,
    }
}

/// A BCS sequence length at the front of `s`: a canonical ULEB128 number
/// no more than `MAX_SEQUENCE_LENGTH`, and the bytes it takes.
pub open spec fn bcs_len(s: Seq<u8>) -> Option<(nat, nat)> {
    match decode_uleb128(s) {
        Some((n, k)) => if n <= MAX_SEQUENCE_LENGTH && s.subrange(0, k as int) == uleb128(n) {
            Some((n, k))
        } else {
            None
        },
        None => None,
    }
}

/// The JSON of a value of the fixed-size type `t` whose BCS bytes are `b`:
/// integers as numbers (a `u128` only when it fits in 64 bits, as
/// `serde_json` requires), booleans from the bytes 0 and 1, an address as
/// its lower-case hex text, a 256-bit integer as its 32 little-endian
/// bytes.
pub open spec fn leaf_json(t: FunctionArgType, b: Seq<u8>) -> Option<JsonModel> {
    match t {
        FunctionArgType::U8 => Some(number(le_value(b))),
        FunctionArgType::U16 => Some(number(le_value(b))),
        FunctionArgType::U32 => Some(number(le_value(b))),
        FunctionArgType::U64 => Some(number(le_value(b))),
        FunctionArgType::U128 => if le_value(b) <= u64::MAX {
            Some(number(le_value(b)))
        } else {
            None
        },
        FunctionArgType::Bool => if b[0] <= 1 {
            Some(JsonModel::Bool(b[0] == 1))
        } else {
            None
        },
        FunctionArgType::Address => Some(JsonModel::String(spec_hex_encode(b))),
        FunctionArgType::U256 => Some(JsonModel::Array(bytes_model(b))),
        _ => None,
    }
}

/// The JSON of one plain value of type `t` read from the front of `s`, and
/// the bytes it took: a fixed-size value, or a length-prefixed byte
/// sequence (as numbers) or UTF-8 string.
pub open spec fn read_scalar(t: FunctionArgType, s: Seq<u8>) -> Option<(JsonModel, nat)> {
    match fixed_size(t) {
        Some(z) => if z <= s.len() {
            match leaf_json(t, s.subrange(0, z as int)) {
                Some(j) => Some((j, z)),
                None => None,
            }
        } else {
            None
        },
        None => if t == FunctionArgType::Hex || t == FunctionArgType::String {
            match bcs_len(s) {
                Some((n, k)) => if k + n <= s.len() {
                    let b = s.subrange(k as int, (k + n) as int);
                    if t == FunctionArgType::Hex {
                        Some((JsonModel::Array(bytes_model(b)), k + n))
                    } else if valid_utf8(b) {
                        Some((JsonModel::String(decode_utf8(b)), k + n))
                    } else {
                        None
                    }
                } else {
                    None
                },
                None => None,
            }
        } else {
            None
        },
    }
}

/// The JSON of one value of type `t` nested `depth` vectors deep, read
/// from the front of `s`, and the bytes it took.
pub open spec fn read_value(t: FunctionArgType, depth: nat, s: Seq<u8>) -> Option<(JsonModel, nat)>
    decreases depth, 0nat, 0nat,
{
    if depth == 0 {
        read_scalar(t, s)
    } else {
        match bcs_len(s) {
            Some((n, k)) => match read_items(t, (depth - 1) as nat, n, s.subrange(k as int, s.len() as int)) {
                Some((xs, m)) => Some((JsonModel::Array(xs), k + m)),
                None => None,
            },
            None => None,
        }
    }
}

/// The first `n` values of type `t` at depth `d`, read one after the other
/// from the front of `s`, and the bytes they took.
pub open spec fn read_items(t: FunctionArgType, d: nat, n: nat, s: Seq<u8>) -> Option<(Seq<JsonModel>, nat)>
    decreases d, n, 1nat,
{
    if n == 0 {
        Some((Seq::empty(), 0nat))
    } else {
        match read_items(t, d, (n - 1) as nat, s) {
            Some((xs, m)) => if m <= s.len() {
                match read_value(t, d, s.subrange(m as int, s.len() as int)) {
                    Some((x, m2)) => Some((xs.push(x), m + m2)),
                    None => None,
                }
            } else {
                None
            },
            None => None,
        }
    }
}

/// The JSON of the BCS value `bytes` of type `t` nested `depth` vectors
/// deep: the whole of the bytes must be read, and no more than seven
/// levels of vectors are read.
pub open spec fn spec_bcs_value_json(t: FunctionArgType, depth: nat, bytes: Seq<u8>) -> Option<JsonModel> {
    if depth > 7 {
        None
    } else {
        match read_value(t, depth, bytes) {
            Some((j, m)) => if m == bytes.len() {
                Some(j)
            } else {
                None
            },
            None => None,
        }
    }
}

/// The JSON of an argument: raw bytes as an array of numbers, any other
/// type as its BCS value read back.
pub open spec fn spec_arg_to_json(t: FunctionArgType, depth: nat, bytes: Seq<u8>) -> Option<JsonModel> {
    if t == FunctionArgType::Raw {
        Some(JsonModel::Array(bytes_model(bytes)))
    } else {
        spec_bcs_value_json(t, depth, bytes)
    }
}

/// `128` to the power `j`.
pub open spec fn pow128(j: nat) -> nat
    decreases j,
{
    if j == 0 {
        1
    } else {
        128 * pow128((j - 1) as nat)
    }
}

/// A number below `128^j` has a ULEB128 encoding of at most `j` bytes.
proof fn lemma_uleb128_len_bound(n: nat, j: nat)
    requires
        j >= 1,
        n < pow128(j),
    ensures
        uleb128(n).len() <= j,
    decreases n,
{
    if n >= 128 {
        assert(j >= 2) by {
            if j == 1 {
                assert(pow128(0) == 1);
            }
        }
        assert(n / 128 < pow128((j - 1) as nat));
        lemma_uleb128_len_bound(n / 128, (j - 1) as nat);
    }
}

/// When the first `j` bytes all have the high bit set, a ULEB128 number
/// read from the front takes more than `j` bytes, if it can be read at all.
proof fn lemma_decode_long(s: Seq<u8>, j: nat)
    requires
        j <= s.len(),
        forall|i: int| 0 <= i < j ==> s[i] >= 128,
    ensures
        decode_uleb128(s) matches Some((_, k)) ==> k > j,
        j == s.len() ==> decode_uleb128(s) is None,
    decreases j,
{
    if j > 0 {
        lemma_decode_long(s.drop_first(), (j - 1) as nat);
    }
}

/// A ULEB128 number read from the front of `s` takes at least one and at
/// most all of its bytes.
proof fn lemma_decode_len(s: Seq<u8>)
    ensures
        decode_uleb128(s) matches Some((_, k)) ==> 1 <= k <= s.len(),
    decreases s.len(),
{
    if s.len() > 0 && s[0] >= 128 {
        lemma_decode_len(s.drop_first());
    }
}

/// Reading a ULEB128 number whose last byte is at `k`: the bytes from `j`
/// on decode to the value of bytes `j..=k`.
proof fn lemma_decode_step(s: Seq<u8>, j: int)
    requires
        0 <= j < s.len(),
        s[j] >= 128,
    ensures
        decode_uleb128(s.subrange(j, s.len() as int)) == match decode_uleb128(s.subrange(j + 1, s.len() as int)) {
            Some((v, n)) => Some((((s[j] - 128) + 128 * v) as nat, n + 1)),
            None => None,
        },
{
    let t = s.subrange(j, s.len() as int);
    assert(t.drop_first() =~= s.subrange(j + 1, s.len() as int));
}

/// Copies `bytes[from..from + n]`.
fn take_bytes(bytes: &Vec<u8>, from: usize, n: usize) -> (r: Vec<u8>)
    requires
        from + n <= bytes@.len(),
    ensures
        r@ == bytes@.subrange(from as int, from + n),
{
    let mut out: Vec<u8> = Vec::new();
    let mut i: usize = 0;
    while i < n
        invariant
            from + n <= bytes.len(),
            i <= n,
            out@ == bytes@.subrange(from as int, from + i),
        decreases n - i,
    {
        out.push(bytes[from + i]);
        i = i + 1;
        proof {
            assert(out@ =~= bytes@.subrange(from as int, from + i));
        }
    }
    out
}

/// Reads a BCS sequence length at `pos`: the length and the bytes it took.
fn read_len(bytes: &Vec<u8>, pos: usize) -> (r: Option<(usize, usize)>)
    requires
        pos <= bytes@.len(),
    ensures
        match (r, bcs_len(bytes@.subrange(pos as int, bytes@.len() as int))) {
            (Some((n, k)), Some((a, b))) => n == a && k == b,
            (None, None) => true,
            _ => false,
        },
{
    let ghost s = bytes@.subrange(pos as int, bytes@.len() as int);
    let len = bytes.len();
    let mut k: usize = 0;
    while k < 5 && k < len - pos && bytes[pos + k] >= 128
        invariant
            k <= 5,
            pos + k <= len,
            len == bytes@.len(),
            s == bytes@.subrange(pos as int, len as int),
            forall|i: int| 0 <= i < k ==> s[i] >= 128,
        decreases 5 - k,
    {
        k = k + 1;
    }
    if k == len - pos {
        proof {
            lemma_decode_long(s, k as nat);
        }
        return None;
    }
    if k == 5 {
        proof {
            lemma_decode_long(s, 5);
            lemma_decode_len(s);
            if let Some((n, kk)) = decode_uleb128(s) {
                if n <= MAX_SEQUENCE_LENGTH && s.subrange(0, kk as int) == uleb128(n) {
                    assert(pow128(5) == 34359738368) by {
                reveal_with_fuel(pow128, 6);
            }
                    lemma_uleb128_len_bound(n, 5);
                }
            }
        }
        return None;
    }
    // The last byte of the number is at `k`.
    let mut val: u64 = bytes[pos + k] as u64;
    let mut j: usize = k;
    proof {
        assert(s.subrange(k as int, s.len() as int)[0] == s[k as int]);
        assert(pow128(1) == 128) by {
                reveal_with_fuel(pow128, 6);
            }
    }
    while j > 0
        invariant
            j <= k,
            k < 5,
            pos + k < len,
            len == bytes@.len(),
            s == bytes@.subrange(pos as int, len as int),
            forall|i: int| 0 <= i < k ==> s[i] >= 128,
            s[k as int] < 128,
            val < pow128((k - j + 1) as nat),
            decode_uleb128(s.subrange(j as int, s.len() as int)) == Some((val as nat, (k - j + 1) as nat)),
        decreases j,
    {
        proof {
            lemma_decode_step(s, j - 1);
            assert(pow128((k - j + 2) as nat) == 128 * pow128((k - j + 1) as nat));
            assert(pow128(5) == 34359738368) by {
                reveal_with_fuel(pow128, 6);
            }
            assert(pow128((k - j + 1) as nat) <= pow128(4)) by {
                lemma_pow128_mono((k - j + 1) as nat, 4);
            }
            assert(pow128(4) == 268435456) by {
                reveal_with_fuel(pow128, 6);
            }
        }
        let b = bytes[pos + j - 1];
        val = val * 128 + (b - 128) as u64;
        j = j - 1;
    }
    assert(s.subrange(0, s.len() as int) =~= s);
    if val > MAX_SEQUENCE_LENGTH as u64 {
        return None;
    }
    let n = val as usize;
    let mut enc: Vec<u8> = Vec::new();
    write_u64_as_uleb128(&mut enc, n);
    proof {
        assert(enc@ =~= uleb128(n as nat));
    }
    if enc.len() != k + 1 {
        return None;
    }
    let mut i: usize = 0;
    while i <= k
        invariant
            i <= k + 1,
            k < 5,
            pos + k < len,
            len == bytes@.len(),
            s == bytes@.subrange(pos as int, len as int),
            enc@.len() == k + 1,
            enc@ == uleb128(n as nat),
            decode_uleb128(s) == Some((n as nat, (k + 1) as nat)),
            n <= MAX_SEQUENCE_LENGTH,
            forall|x: int| 0 <= x < i ==> enc@[x] == s[x],
        decreases k + 1 - i,
    {
        if enc[i] != bytes[pos + i] {
            proof {
                assert(s.subrange(0, (k + 1) as int)[i as int] != enc@[i as int]);
            }
            return None;
        }
        i = i + 1;
    }
    proof {
        assert(s.subrange(0, (k + 1) as int) =~= enc@);
    }
    Some((n, k + 1))
}

proof fn lemma_pow128_mono(a: nat, b: nat)
    requires
        a <= b,
    ensures
        pow128(a) <= pow128(b),
    decreases b,
{
    if a < b {
        lemma_pow128_mono(a, (b - 1) as nat);
    }
}

/// The JSON numbers for `bytes[from..from + n]`.
fn bytes_json(bytes: &Vec<u8>, from: usize, n: usize) -> (r: Vec<JsonValue>)
    requires
        from + n <= bytes@.len(),
    ensures
        items_model(r@) == bytes_model(bytes@.subrange(from as int, from + n)),
{
    let mut out: Vec<JsonValue> = Vec::new();
    let mut i: usize = 0;
    while i < n
        invariant
            from + n <= bytes.len(),
            i <= n,
            items_model(out@) == bytes_model(bytes@.subrange(from as int, from + i)),
        decreases n - i,
    {
        let b = bytes[from + i];
        let x = JsonValue::Number(u64_to_decimal(b as u64));
        let ghost before = out@;
        let ghost xm = json_model(x);
        assert(xm == number(b as nat));
        out.push(x);
        proof {
            assert(out@.drop_last() =~= before);
            assert(out@.last() == x);
            assert(items_model(out@) == items_model(before).push(xm));
            assert(bytes_model(bytes@.subrange(from as int, from + i + 1)) =~= bytes_model(
                bytes@.subrange(from as int, from + i),
            ).push(number(b as nat)));
        }
        i = i + 1;
    }
    out
}

/// Reads one plain value of type `t` at `pos` as JSON, with the bytes it
/// took; on failure, why.
fn read_scalar_json(bytes: &Vec<u8>, pos: usize, t: FunctionArgType) -> (r: Result<(JsonValue, usize), String>)
    requires
        pos <= bytes@.len(),
    ensures
        match (r, read_scalar(t, bytes@.subrange(pos as int, bytes@.len() as int))) {
            (Ok((j, m)), Some((v, c))) => json_model(j) == v && m == c && pos + m <= bytes@.len(),
            (Err(_), None) => true,
            _ => false,
        },
{
    let ghost s = bytes@.subrange(pos as int, bytes@.len() as int);
    let len = bytes.len();
    let rest = len - pos;
    match t {
        FunctionArgType::Hex | FunctionArgType::String => {
            let (n, k) = match read_len(bytes, pos) {
                Some(x) => x,
                None => {
                    return Err(String::from_str("malformed sequence length"));
                },
            };
            proof {
                lemma_decode_len(s);
            }
            if n > rest - k {
                return Err(String::from_str("unexpected end of input"));
            }
            proof {
                assert(s.subrange(k as int, (k + n) as int) =~= bytes@.subrange(
                    (pos + k) as int,
                    pos + k + n,
                ));
            }
            if t == FunctionArgType::Hex {
                Ok((JsonValue::Array(bytes_json(bytes, pos + k, n)), k + n))
            } else {
                let v = take_bytes(bytes, pos + k, n);
                match utf8_decode(v) {
                    Ok(text) => Ok((JsonValue::String(text), k + n)),
                    Err(_) => Err(String::from_str("malformed utf8")),
                }
            }
        },
        FunctionArgType::Raw => Err(String::from_str("raw bytes are not a typed value")),
        _ => {
            let z: usize = match t {
                FunctionArgType::U8 => 1,
                FunctionArgType::Bool => 1,
                FunctionArgType::U16 => 2,
                FunctionArgType::U32 => 4,
                FunctionArgType::U64 => 8,
                FunctionArgType::U128 => 16,
                _ => 32,
            };
            if z > rest {
                return Err(String::from_str("unexpected end of input"));
            }
            let v = take_bytes(bytes, pos, z);
            proof {
                assert(s.subrange(0, z as int) =~= v@);
            }
            let eof = String::from_str("unexpected end of input");
            let j = match t {
                FunctionArgType::U8 => match bcs_decode_u8(v.as_slice()) {
                    Ok(x) => JsonValue::Number(u64_to_decimal(x as u64)),
                    Err(_) => {
                        return Err(eof);
                    },
                },
                FunctionArgType::U16 => match bcs_decode_u16(v.as_slice()) {
                    Ok(x) => JsonValue::Number(u64_to_decimal(x as u64)),
                    Err(_) => {
                        return Err(eof);
                    },
                },
                FunctionArgType::U32 => match bcs_decode_u32(v.as_slice()) {
                    Ok(x) => JsonValue::Number(u64_to_decimal(x as u64)),
                    Err(_) => {
                        return Err(eof);
                    },
                },
                FunctionArgType::U64 => match bcs_decode_u64(v.as_slice()) {
                    Ok(x) => JsonValue::Number(u64_to_decimal(x)),
                    Err(_) => {
                        return Err(eof);
                    },
                },
                FunctionArgType::U128 => match bcs_decode_u128(v.as_slice()) {
                    Ok(x) => if x <= 0xffff_ffff_ffff_ffffu128 {
                        JsonValue::Number(u64_to_decimal(x as u64))
                    } else {
                        return Err(String::from_str("number out of range"));
                    },
                    Err(_) => {
                        return Err(eof);
                    },
                },
                FunctionArgType::Bool => match bcs_decode_bool(v.as_slice()) {
                    Ok(x) => JsonValue::Bool(x),
                    Err(_) => {
                        return Err(String::from_str("expected boolean"));
                    },
                },
                FunctionArgType::Address => match bcs_decode_array32(v.as_slice()) {
                    Ok(a) => JsonValue::String(hex_encode(&a)),
                    Err(_) => {
                        return Err(eof);
                    },
                },
                _ => JsonValue::Array(bytes_json(bytes, pos, 32)),
            };
            Ok((j, z))
        },
    }
}

/// Once the first `j` items cannot be read, no more items can be.
proof fn lemma_read_items_none(t: FunctionArgType, d: nat, j: nat, n: nat, s: Seq<u8>)
    requires
        j <= n,
        read_items(t, d, j, s) is None,
    ensures
        read_items(t, d, n, s) is None,
    decreases n,
{
    if j < n {
        lemma_read_items_none(t, d, j, (n - 1) as nat, s);
    }
}

/// Reads one value of type `t`, `depth` vectors deep, at `pos` as JSON,
/// with the bytes it took; on failure, why.
fn read_value_json(bytes: &Vec<u8>, pos: usize, t: FunctionArgType, depth: u8) -> (r: Result<
    (JsonValue, usize),
    String,
>)
    requires
        pos <= bytes@.len(),
    ensures
        match (r, read_value(t, depth as nat, bytes@.subrange(pos as int, bytes@.len() as int))) {
            (Ok((j, m)), Some((v, c))) => json_model(j) == v && m == c && pos + m <= bytes@.len(),
            (Err(_), None) => true,
            _ => false,
        },
    decreases depth,
{
    if depth == 0 {
        return read_scalar_json(bytes, pos, t);
    }
    let ghost s = bytes@.subrange(pos as int, bytes@.len() as int);
    let len = bytes.len();
    let (n, k) = match read_len(bytes, pos) {
        Some(x) => x,
        None => {
            return Err(String::from_str("malformed sequence length"));
        },
    };
    proof {
        lemma_decode_len(s);
    }
    let start = pos + k;
    let ghost d = (depth - 1) as nat;
    let ghost s2 = bytes@.subrange(start as int, len as int);
    proof {
        assert(s.subrange(k as int, s.len() as int) =~= s2);
    }
    let mut items: Vec<JsonValue> = Vec::new();
    let mut cur = start;
    let mut i: usize = 0;
    while i < n
        invariant
            start <= cur <= len,
            i <= n,
            len == bytes@.len(),
            depth > 0,
            d == depth - 1,
            s2 == bytes@.subrange(start as int, len as int),
            s == bytes@.subrange(pos as int, len as int),
            start == pos + k,
            bcs_len(s) == Some((n as nat, k as nat)),
            s.subrange(k as int, s.len() as int) == s2,
            read_items(t, d, i as nat, s2) == Some((items_model(items@), (cur - start) as nat)),
        decreases n - i,
    {
        proof {
            assert(s2.subrange((cur - start) as int, s2.len() as int) =~= bytes@.subrange(
                cur as int,
                len as int,
            ));
        }
        match read_value_json(bytes, cur, t, depth - 1) {
            Ok((x, m)) => {
                let ghost before = items@;
                items.push(x);
                proof {
                    assert(items@.drop_last() =~= before);
                }
                cur = cur + m;
                i = i + 1;
            },
            Err(e) => {
                proof {
                    assert(read_value(t, d, s2.subrange((cur - start) as int, s2.len() as int)) is None);
                    assert(read_items(t, d, (i + 1) as nat, s2) is None);
                    lemma_read_items_none(t, d, (i + 1) as nat, n as nat, s2);
                }
                return Err(e);
            },
        }
    }
    Ok((JsonValue::Array(items), cur - pos))
}

/// The text of the error for a vector nested `d` deep.
pub open spec fn overly_nested_text(d: nat) -> Seq<char> {
    "Vector of depth "@ + decimal_text(d) + " is overly nested"@
}

/// What the message of a failed JSON rendering starts with.
pub open spec fn json_failure_prefix() -> Seq<char> {
    "Failed to parse argument to JSON Unexpected error: "@
}

impl ArgWithType {
    /// The argument's BCS value read back as JSON, as a value of its type
    /// nested as deep as its vector depth (at most seven). The error is
    /// unexpected, with the reason; for a deeper vector, that it is overly
    /// nested.
    pub fn bcs_value_to_json(&self) -> (r: Result<JsonValue, CliError>)
        ensures
            match (r, spec_bcs_value_json(self._ty, self._vector_depth as nat, self.arg@)) {
                (Ok(j), Some(v)) => json_model(j) == v,
                (Err(e), None) => e matches CliError::UnexpectedError(m) && (self._vector_depth > 7
                    ==> m@ == overly_nested_text(self._vector_depth as nat)),
                _ => false,
            },
    {
        if self._vector_depth > 7 {
            let a = concat_text("Vector of depth ", u64_to_decimal(self._vector_depth as u64).as_str());
            return Err(CliError::UnexpectedError(concat_text(a.as_str(), " is overly nested")));
        }
        proof {
            assert(self.arg@.subrange(0, self.arg@.len() as int) =~= self.arg@);
        }
        match read_value_json(&self.arg, 0, self._ty, self._vector_depth) {
            Ok((j, m)) => if m == self.arg.len() {
                Ok(j)
            } else {
                Err(CliError::UnexpectedError(String::from_str("remaining input")))
            },
            Err(e) => Err(CliError::UnexpectedError(e)),
        }
    }

    /// The argument as JSON: raw bytes as an array of numbers, any other
    /// type as its BCS value read back (`bcs_value_to_json`). A failure is
    /// an unexpected error saying that the argument could not be rendered,
    /// followed by the reason.
    pub fn to_json(&self) -> (r: Result<JsonValue, CliError>)
        ensures
            match (r, spec_arg_to_json(self._ty, self._vector_depth as nat, self.arg@)) {
                (Ok(j), Some(v)) => json_model(j) == v,
                (Err(e), None) => e matches CliError::UnexpectedError(m) && m@.len()
                    >= json_failure_prefix().len() && m@.subrange(
                    0,
                    json_failure_prefix().len() as int,
                ) == json_failure_prefix() && (self._vector_depth > 7 ==> m@ == json_failure_prefix()
                    + overly_nested_text(self._vector_depth as nat)),
                _ => false,
            },
    {
        if self._ty == FunctionArgType::Raw {
            proof {
                assert(self.arg@.subrange(0, self.arg@.len() as int) =~= self.arg@);
            }
            return Ok(JsonValue::Array(bytes_json(&self.arg, 0, self.arg.len())));
        }
        match self.bcs_value_to_json() {
            Ok(j) => Ok(j),
            Err(CliError::UnexpectedError(m)) => {
                let p = String::from_str("Failed to parse argument to JSON Unexpected error: ");
                proof {
                    reveal_strlit("Failed to parse argument to JSON Unexpected error: ");
                }
                let text = concat_text(p.as_str(), m.as_str());
                proof {
                    assert(text@.subrange(0, json_failure_prefix().len() as int) =~= json_failure_prefix());
                }
                Err(CliError::UnexpectedError(text))
            },
            Err(e) => Err(e),
        }
    }
}

/// The width in bytes of the integer types up to 64 bits.
pub open spec fn small_int_width(t: FunctionArgType) -> Option<nat> {
    match t {
        FunctionArgType::U8 => Some(1nat),
        FunctionArgType::U16 => Some(2nat),
        FunctionArgType::U32 => Some(4nat),
        FunctionArgType::U64 => Some(8nat),
        _ => None,
    }
}

/// An integer argument renders as its own value: for a `u8`, `u16`, `u32`
/// or `u64` argument holding `v` (its little-endian bytes), the JSON is the
/// number `v` in decimal; a `u128` holding `v` renders as `v` exactly when
/// `v` fits in 64 bits and fails otherwise.
pub proof fn lemma_int_arg_json(t: FunctionArgType, v: nat)
    ensures
        match small_int_width(t) {
            Some(n) => v < vstd::arithmetic::power::pow(256, n) ==> spec_arg_to_json(
                t,
                0,
                le_bytes(v, n),
            ) == Some(JsonModel::Number(decimal_text(v))),
            None => true,
        },
        t == FunctionArgType::U128 && v < vstd::arithmetic::power::pow(256, 16) ==> spec_arg_to_json(
            t,
            0,
            le_bytes(v, 16),
        ) == (if v <= u64::MAX {
            Some(JsonModel::Number(decimal_text(v)))
        } else {
            None
        }),
{
    let w: nat = match small_int_width(t) {
        Some(n) => n,
        None => 16nat,
    };
    if (small_int_width(t) is Some || t == FunctionArgType::U128) && v < vstd::arithmetic::power::pow(256, w) {
        let b = le_bytes(v, w);
        lemma_le_bytes_len(v, w);
        lemma_le_roundtrip(v, w);
        assert(b.subrange(0, w as int) =~= b);
    }
}

/// A `u64` argument made from `v` (as `ArgWithType::u64` makes it) renders
/// as the number `v`.
pub proof fn lemma_u64_arg_json(v: u64)
    ensures
        spec_arg_to_json(FunctionArgType::U64, 0, le_bytes(v as nat, 8)) == Some(
            JsonModel::Number(decimal_text(v as nat)),
        ),
{
    assert(vstd::arithmetic::power::pow(256, 8) == 0x1_0000_0000_0000_0000) by {
        reveal_with_fuel(vstd::arithmetic::power::pow, 9);
    }
    lemma_int_arg_json(FunctionArgType::U64, v as nat);
}

/// A boolean argument renders as `true` or `false` from its one byte, 1
/// or 0; any other byte does not render.
pub proof fn lemma_bool_arg_json(x: u8)
    ensures
        spec_arg_to_json(FunctionArgType::Bool, 0, seq![x]) == (if x <= 1 {
            Some(JsonModel::Bool(x == 1))
        } else {
            None
        }),
{
    assert(seq![x].subrange(0, 1) =~= seq![x]);
}

/// An address argument renders as the lower-case hex text of its 32 bytes.
pub proof fn lemma_address_arg_json(a: Seq<u8>)
    requires
        a.len() == 32,
    ensures
        spec_arg_to_json(FunctionArgType::Address, 0, a) == Some(JsonModel::String(spec_hex_encode(a))),
{
    assert(a.subrange(0, 32) =~= a);
}

/// A BCS byte sequence has its length read back from its prefix.
proof fn lemma_bcs_len_of_seq(b: Seq<u8>)
    requires
        b.len() <= MAX_SEQUENCE_LENGTH,
    ensures
        bcs_len(bcs_seq(b)) == Some((b.len() as nat, uleb128(b.len()).len())),
        bcs_seq(b).subrange(uleb128(b.len()).len() as int, bcs_seq(b).len() as int) == b,
{
    let s = bcs_seq(b);
    lemma_uleb128_roundtrip(b.len(), b);
    assert(s.subrange(0, uleb128(b.len()).len() as int) =~= uleb128(b.len()));
    assert(s.subrange(uleb128(b.len()).len() as int, s.len() as int) =~= b);
}

/// A hex argument renders as its bytes, each as a number, in order.
pub proof fn lemma_hex_arg_json(b: Seq<u8>)
    requires
        b.len() <= MAX_SEQUENCE_LENGTH,
    ensures
        spec_arg_to_json(FunctionArgType::Hex, 0, bcs_seq(b)) == Some(
            JsonModel::Array(b.map_values(|x: u8| JsonModel::Number(decimal_text(x as nat)))),
        ),
{
    lemma_bcs_len_of_seq(b);
    let s = bcs_seq(b);
    let k = uleb128(b.len()).len();
    assert(s.subrange(k as int, (k + b.len()) as int) =~= b);
    assert(bytes_model(b) =~= b.map_values(|x: u8| JsonModel::Number(decimal_text(x as nat))));
}

/// A string argument renders as its text: the BCS of the UTF-8 bytes of
/// `cs` renders as the string `cs`.
pub proof fn lemma_string_arg_json(cs: Seq<char>)
    requires
        encode_utf8(cs).len() <= MAX_SEQUENCE_LENGTH,
    ensures
        spec_arg_to_json(FunctionArgType::String, 0, bcs_seq(encode_utf8(cs))) == Some(JsonModel::String(cs)),
{
    let b = encode_utf8(cs);
    lemma_bcs_len_of_seq(b);
    encode_utf8_valid_utf8(cs);
    encode_utf8_decode_utf8(cs);
    let s = bcs_seq(b);
    let k = uleb128(b.len()).len();
    assert(s.subrange(k as int, (k + b.len()) as int) =~= b);
}

} // verus!
