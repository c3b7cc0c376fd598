//! Typed Move call arguments: the argument types, JSON argument values,
//! their BCS encoding (scalars and nested vectors), parsing `type:value`
//! text, and conversion to transaction arguments.

use vstd::prelude::*;
use crate::address::{AccountAddress, ProfileBook, load_account_arg, spec_load_account_arg};
use crate::bcs_codec::{MAX_SEQUENCE_LENGTH, bcs_bool, bcs_seq, bcs_seq_decode, le_bytes, le_value, bcs_decode_array32, bcs_decode_bool, bcs_decode_bytes, bcs_decode_u8, bcs_decode_u16, bcs_decode_u32, bcs_decode_u64, bcs_decode_u128, bcs_encode_array32, bcs_encode_bool, bcs_encode_bytes, bcs_encode_str, bcs_encode_u8, bcs_encode_u16, bcs_encode_u32, bcs_encode_u64, bcs_encode_u128};
use crate::decimal::{spec_parse_unsigned, parse_unsigned, parse_bool};
use crate::errors::CliError;
use crate::hex_codec::{spec_hex_decode, hex_decode};
use crate::text::{all_ascii, concat_text, lowercase_text, str_eq, to_lowercase};
use crate::u256::{u256_max, parse_u256_le_bytes};
use crate::uleb128::{uleb128, write_u64_as_uleb128};
use vstd::string::StringSliceAdditionalSpecFns;

verus! {

/// The type of a Move call argument.
#[derive(Clone, Copy, Debug, PartialEq, Eq, Structural)]
pub enum FunctionArgType {
    Address,
    Bool,
    Hex,
    String,
    U8,
    U16,
    U32,
    U64,
    U128,
    U256,
    Raw,
}

/// The name of an argument type, as written on the command line.
pub open spec fn arg_type_name(t: FunctionArgType) -> Seq<char> {
    match t {
        FunctionArgType::Address => "address"@,
        FunctionArgType::Bool => "bool"@,
        FunctionArgType::Hex => "hex"@,
        FunctionArgType::String => "string"@,
        FunctionArgType::U8 => "u8"@,
        FunctionArgType::U16 => "u16"@,
        FunctionArgType::U32 => "u32"@,
        FunctionArgType::U64 => "u64"@,
        FunctionArgType::U128 => "u128"@,
        FunctionArgType::U256 => "u256"@,
        FunctionArgType::Raw => "raw"@,
    }
}

/// The argument type whose name is the lower-case form of `s`.
pub open spec fn spec_arg_type_from_str(s: Seq<char>) -> Option<FunctionArgType> {
    let l = lowercase_text(s);
    if l == "address"@ {
        Some(FunctionArgType::Address)
    } else if l == "bool"@ {
        Some(FunctionArgType::Bool)
    } else if l == "hex"@ {
        Some(FunctionArgType::Hex)
    } else if l == "string"@ {
        Some(FunctionArgType::String)
    } else if l == "u8"@ {
        Some(FunctionArgType::U8)
    } else if l == "u16"@ {
        Some(FunctionArgType::U16)
    } else if l == "u32"@ {
        Some(FunctionArgType::U32)
    } else if l == "u64"@ {
        Some(FunctionArgType::U64)
    } else if l == "u128"@ {
        Some(FunctionArgType::U128)
    } else if l == "u256"@ {
        Some(FunctionArgType::U256)
    } else if l == "raw"@ {
        Some(FunctionArgType::Raw)
    } else {
        None
    }
}

/// A JSON value, as an argument's value is written.
pub enum JsonValue {
    Null,
    Bool(bool),
    /// A number, held as the text `serde_json` prints for it.
    Number(String),
    String(String),
    Array(Vec<JsonValue>),
    Object,
}

/// How deeply arrays nest in `v`.
pub open spec fn json_nesting(v: JsonValue) -> nat
    decreases v, 0nat,
{
    match v {
        JsonValue::Array(items) => 1 + items_nesting(items@),
        _ => 0,
    }
}

/// The deepest nesting among `items`.
pub open spec fn items_nesting(items: Seq<JsonValue>) -> nat
    decreases items, 1nat,
{
    if items.len() == 0 {
        0
    } else {
        let a = items_nesting(items.drop_last());
        let b = json_nesting(items.last());
        if a < b {
            b
        } else {
            a
        }
    }
}

/// Why an argument could not be encoded.
pub enum ArgFault {
    /// The text is not a value of the type.
    Unparsable,
    /// A byte sequence longer than BCS allows.
    TooLong,
    /// A JSON `null`.
    NullArgument,
    /// A JSON object.
    ObjectArgument,
    /// Vector elements of different vector depths.
    VariableDepth,
}

/// The BCS encoding of the text `s` as a standalone value of type `t`.
pub open spec fn spec_arg_str(t: FunctionArgType, s: Seq<char>, book: ProfileBook) -> Result<
    Seq<u8>,
    ArgFault,
> {
    match t {
        FunctionArgType::Address => match spec_load_account_arg(s, book) {
            Ok(b) => Ok(b),
            Err(_) => Err(ArgFault::Unparsable),
        },
        FunctionArgType::Bool => if s == "true"@ {
            Ok(bcs_bool(true))
        } else if s == "false"@ {
            Ok(bcs_bool(false))
        } else {
            Err(ArgFault::Unparsable)
        },
        FunctionArgType::Hex => match spec_hex_decode(s) {
            Some(b) => if b.len() <= MAX_SEQUENCE_LENGTH {
                Ok(bcs_seq(b))
            } else {
                Err(ArgFault::TooLong)
            },
            None => Err(ArgFault::Unparsable),
        },
        FunctionArgType::String => if vstd::utf8::encode_utf8(s).len() <= MAX_SEQUENCE_LENGTH {
            Ok(bcs_seq(vstd::utf8::encode_utf8(s)))
        } else {
            Err(ArgFault::TooLong)
        },
        FunctionArgType::U8 => uint_arg(s, 0xff, 1),
        FunctionArgType::U16 => uint_arg(s, 0xffff, 2),
        FunctionArgType::U32 => uint_arg(s, 0xffff_ffff, 4),
        FunctionArgType::U64 => uint_arg(s, 0xffff_ffff_ffff_ffff, 8),
        FunctionArgType::U128 => uint_arg(s, 0xffff_ffff_ffff_ffff_ffff_ffff_ffff_ffff, 16),
        FunctionArgType::U256 => uint_arg(s, u256_max(), 32),
        FunctionArgType::Raw => match spec_hex_decode(s) {
            Some(b) => Ok(b),
            None => Err(ArgFault::Unparsable),
        },
    }
}

/// The `n` little-endian bytes of the decimal integer `s`, no larger than `max`.
pub open spec fn uint_arg(s: Seq<char>, max: nat, n: nat) -> Result<Seq<u8>, ArgFault> {
    match spec_parse_unsigned(s, max) {
        Some(v) => Ok(le_bytes(v, n)),
        None => Err(ArgFault::Unparsable),
    }
}

/// The vector depth and BCS encoding of the JSON argument `v` of element
/// type `t`: scalars are encoded by `spec_arg_str`; an array is its length
/// in ULEB128 followed by its elements, which must share one depth.
pub open spec fn spec_arg_json(t: FunctionArgType, v: JsonValue, book: ProfileBook) -> Result<
    (nat, Seq<u8>),
    ArgFault,
>
    decreases v, 0nat,
{
    match v {
        JsonValue::Null => Err(ArgFault::NullArgument),
        JsonValue::Object => Err(ArgFault::ObjectArgument),
        JsonValue::Bool(b) => match spec_arg_str(t, if b { "true"@ } else { "false"@ }, book) {
            Ok(x) => Ok((0nat, x)),
            Err(f) => Err(f),
        },
        JsonValue::Number(n) => match spec_arg_str(t, n@, book) {
            Ok(x) => Ok((0nat, x)),
            Err(f) => Err(f),
        },
        JsonValue::String(s) => match spec_arg_str(t, s@, book) {
            Ok(x) => Ok((0nat, x)),
            Err(f) => Err(f),
        },
        JsonValue::Array(items) => match spec_arg_items(t, items@, book) {
            Ok((c, x)) => Ok(
                (
                    (match c {
                        Some(d) => d,
                        None => 0nat,
                    }) + 1,
                    uleb128(items@.len()) + x,
                ),
            ),
            Err(f) => Err(f),
        },
    }
}

/// The common depth and concatenated encodings of the elements `items`,
/// taken in order; the first failure wins.
pub open spec fn spec_arg_items(t: FunctionArgType, items: Seq<JsonValue>, book: ProfileBook) -> Result<
    (Option<nat>, Seq<u8>),
    ArgFault,
>
    decreases items, 1nat,
{
    if items.len() == 0 {
        Ok((None, Seq::empty()))
    } else {
        match spec_arg_items(t, items.drop_last(), book) {
            Err(f) => Err(f),
            Ok((c, x)) => match spec_arg_json(t, items.last(), book) {
                Err(f) => Err(f),
                Ok((d, y)) => if c is Some && c->0 != d {
                    Err(ArgFault::VariableDepth)
                } else {
                    Ok((Some(d), x + y))
                },
            },
        }
    }
}

/// `e` is the error the CLI reports for `fault` on an argument of type `t`.
pub open spec fn arg_fault_error(e: CliError, t: FunctionArgType, fault: ArgFault) -> bool {
    match fault {
        ArgFault::Unparsable => e matches CliError::UnableToParse(l, _) && l@ == arg_type_name(t),
        ArgFault::TooLong => e matches CliError::BCS(l, _) && l@ == "arg"@,
        ArgFault::NullArgument => e matches CliError::CommandArgumentError(m) && m@
            == "Null argument"@,
        ArgFault::ObjectArgument => e matches CliError::CommandArgumentError(m) && m@
            == "JSON object argument"@,
        ArgFault::VariableDepth => e matches CliError::CommandArgumentError(m) && m@
            == "Variable vector depth"@,
    }
}

fn unable_to_parse(label: &'static str, message: String) -> (e: CliError)
    ensures
        e matches CliError::UnableToParse(l, m) && l == label && m@ == message@,
{
    CliError::UnableToParse(label, message)
}

/// The message of a refused text `s` for an argument of type `t`, where it
/// is known: what `bool` and the unsigned integer types say of text that is
/// not one of their values.
pub open spec fn parse_failure_message(t: FunctionArgType, s: Seq<char>, e: CliError) -> bool {
    match e {
        CliError::UnableToParse(_, m) => match t {
            FunctionArgType::Bool => m@ == "provided string was not `true` or `false`"@,
            FunctionArgType::U8 => m@ == crate::decimal::parse_error_message(s, 0xff),
            FunctionArgType::U16 => m@ == crate::decimal::parse_error_message(s, 0xffff),
            FunctionArgType::U32 => m@ == crate::decimal::parse_error_message(s, 0xffff_ffff),
            FunctionArgType::U64 => m@ == crate::decimal::parse_error_message(
                s,
                0xffff_ffff_ffff_ffff,
            ),
            FunctionArgType::U128 => m@ == crate::decimal::parse_error_message(
                s,
                0xffff_ffff_ffff_ffff_ffff_ffff_ffff_ffff,
            ),
            FunctionArgType::U256 => m@ == crate::decimal::parse_error_message(s, u256_max()),
            _ => true,
        },
        _ => true,
    }
}

/// The message refusing `s` as an argument type.
pub open spec fn invalid_arg_type_message(s: Seq<char>) -> Seq<char> {
    "Invalid arg type '"@ + lowercase_text(s)
        + "'.  Must be one of: ['address','bool','hex','string','u8','u16','u32','u64','u128','u256','raw']"@
}

impl FunctionArgType {
    /// The type's name, as written on the command line.
    pub fn to_string(&self) -> (r: String)
        ensures
            r@ == arg_type_name(*self),
    {
        let s = match self {
            FunctionArgType::Address => "address",
            FunctionArgType::Bool => "bool",
            FunctionArgType::Hex => "hex",
            FunctionArgType::String => "string",
            FunctionArgType::U8 => "u8",
            FunctionArgType::U16 => "u16",
            FunctionArgType::U32 => "u32",
            FunctionArgType::U64 => "u64",
            FunctionArgType::U128 => "u128",
            FunctionArgType::U256 => "u256",
            FunctionArgType::Raw => "raw",
        };
        String::from_str(s)
    }

    /// Reads an argument type from its name, in any letter case.
    pub fn from_str(s: &str) -> (r: Result<FunctionArgType, CliError>)
        ensures
            match r {
                Ok(t) => spec_arg_type_from_str(s@) == Some(t),
                Err(e) => spec_arg_type_from_str(s@) is None && (e matches CliError::CommandArgumentError(
                    m,
                ) && m@ == invalid_arg_type_message(s@)),
            },
    {
        let lower = to_lowercase(s);
        let l = lower.as_str();
        if str_eq(l, "address") {
            Ok(FunctionArgType::Address)
        } else if str_eq(l, "bool") {
            Ok(FunctionArgType::Bool)
        } else if str_eq(l, "hex") {
            Ok(FunctionArgType::Hex)
        } else if str_eq(l, "string") {
            Ok(FunctionArgType::String)
        } else if str_eq(l, "u8") {
            Ok(FunctionArgType::U8)
        } else if str_eq(l, "u16") {
            Ok(FunctionArgType::U16)
        } else if str_eq(l, "u32") {
            Ok(FunctionArgType::U32)
        } else if str_eq(l, "u64") {
            Ok(FunctionArgType::U64)
        } else if str_eq(l, "u128") {
            Ok(FunctionArgType::U128)
        } else if str_eq(l, "u256") {
            Ok(FunctionArgType::U256)
        } else if str_eq(l, "raw") {
            Ok(FunctionArgType::Raw)
        } else {
            let m1 = concat_text("Invalid arg type '", l);
            let m = concat_text(
                m1.as_str(),
                "'.  Must be one of: ['address','bool','hex','string','u8','u16','u32','u64','u128','u256','raw']",
            );
            Err(CliError::CommandArgumentError(m))
        }
    }

    /// Parses a standalone argument (not a vector) from text into its BCS
    /// representation.
    pub fn parse_arg_str(&self, arg: &str, book: &ProfileBook) -> (r: Result<Vec<u8>, CliError>)
        ensures
            match (r, spec_arg_str(*self, arg@, *book)) {
                (Ok(v), Ok(b)) => v@ == b,
                (Err(e), Err(f)) => arg_fault_error(e, *self, f),
                _ => false,
            },
            r matches Err(e) ==> parse_failure_message(*self, arg@, e),
    {
        match self {
            FunctionArgType::Address => match load_account_arg(arg, book) {
                Ok(a) => match bcs_encode_array32(&a.0) {
                    Ok(b) => Ok(b),
                    Err(e) => Err(CliError::BCS("arg", e)),
                },
                Err(e) => Err(unable_to_parse("address", e.to_message())),
            },
            FunctionArgType::Bool => match parse_bool(arg) {
                Ok(b) => match bcs_encode_bool(b) {
                    Ok(v) => Ok(v),
                    Err(e) => Err(CliError::BCS("arg", e)),
                },
                Err(m) => Err(unable_to_parse("bool", m)),
            },
            FunctionArgType::Hex => match hex_decode(arg) {
                Ok(bytes) => match bcs_encode_bytes(&bytes) {
                    Ok(v) => Ok(v),
                    Err(e) => Err(CliError::BCS("arg", e)),
                },
                Err(e) => Err(unable_to_parse("hex", e.to_string())),
            },
            FunctionArgType::String => match bcs_encode_str(arg) {
                Ok(v) => Ok(v),
                Err(e) => Err(CliError::BCS("arg", e)),
            },
            FunctionArgType::U8 => match parse_unsigned(arg, 0xff) {
                Ok(x) => match bcs_encode_u8(x as u8) {
                    Ok(v) => Ok(v),
                    Err(e) => Err(CliError::BCS("arg", e)),
                },
                Err(m) => Err(unable_to_parse("u8", m)),
            },
            FunctionArgType::U16 => match parse_unsigned(arg, 0xffff) {
                Ok(x) => match bcs_encode_u16(x as u16) {
                    Ok(v) => Ok(v),
                    Err(e) => Err(CliError::BCS("arg", e)),
                },
                Err(m) => Err(unable_to_parse("u16", m)),
            },
            FunctionArgType::U32 => match parse_unsigned(arg, 0xffff_ffff) {
                Ok(x) => match bcs_encode_u32(x as u32) {
                    Ok(v) => Ok(v),
                    Err(e) => Err(CliError::BCS("arg", e)),
                },
                Err(m) => Err(unable_to_parse("u32", m)),
            },
            FunctionArgType::U64 => match parse_unsigned(arg, 0xffff_ffff_ffff_ffff) {
                Ok(x) => match bcs_encode_u64(x as u64) {
                    Ok(v) => Ok(v),
                    Err(e) => Err(CliError::BCS("arg", e)),
                },
                Err(m) => Err(unable_to_parse("u64", m)),
            },
            FunctionArgType::U128 => match parse_unsigned(
                arg,
                0xffff_ffff_ffff_ffff_ffff_ffff_ffff_ffff,
            ) {
                Ok(x) => match bcs_encode_u128(x) {
                    Ok(v) => Ok(v),
                    Err(e) => Err(CliError::BCS("arg", e)),
                },
                Err(m) => Err(unable_to_parse("u128", m)),
            },
            FunctionArgType::U256 => match parse_u256_le_bytes(arg) {
                Ok(v) => Ok(v),
                Err(m) => Err(unable_to_parse("u256", m)),
            },
            FunctionArgType::Raw => match hex_decode(arg) {
                Ok(bytes) => Ok(bytes),
                Err(e) => Err(unable_to_parse("raw", e.to_string())),
            },
        }
    }
}

/// A parsed argument: its element type, how deeply it is nested in
/// vectors, and its BCS encoding.
pub struct ArgWithType {
    pub _ty: FunctionArgType,
    pub _vector_depth: u8,
    pub arg: Vec<u8>,
}

impl FunctionArgType {
    /// Recursively encodes a JSON argument into its BCS representation.
    pub fn parse_arg_json(&self, arg: &JsonValue, book: &ProfileBook) -> (r: Result<
        ArgWithType,
        CliError,
    >)
        requires
            json_nesting(*arg) <= 255,
        ensures
            match (r, spec_arg_json(*self, *arg, *book)) {
                (Ok(a), Ok((d, b))) => a._ty == *self && a._vector_depth as nat == d && a.arg@ == b,
                (Err(e), Err(f)) => arg_fault_error(e, *self, f),
                _ => false,
            },
        decreases *arg,
    {
        match arg {
            JsonValue::Bool(value) => {
                let text = if *value {
                    "true"
                } else {
                    "false"
                };
                let bytes = self.parse_arg_str(text, book)?;
                Ok(ArgWithType { _ty: *self, _vector_depth: 0, arg: bytes })
            },
            JsonValue::Number(value) => {
                let bytes = self.parse_arg_str(value.as_str(), book)?;
                Ok(ArgWithType { _ty: *self, _vector_depth: 0, arg: bytes })
            },
            JsonValue::String(value) => {
                let bytes = self.parse_arg_str(value.as_str(), book)?;
                Ok(ArgWithType { _ty: *self, _vector_depth: 0, arg: bytes })
            },
            JsonValue::Array(items) => {
                let mut bcs: Vec<u8> = Vec::new();
                let mut common_sub_arg_depth: Option<u8> = None;
                write_u64_as_uleb128(&mut bcs, items.len());
                let ghost prefix = bcs@;
                let mut i: usize = 0;
                while i < items.len()
                    invariant
                        i <= items@.len(),
                        json_nesting(*arg) <= 255,
                        *arg == JsonValue::Array(*items),
                        prefix == uleb128(items@.len()),
                        spec_arg_items(*self, items@.subrange(0, i as int), *book) matches Ok(
                            (c, x),
                        ) && bcs@ == prefix + x && match c {
                            Some(d) => common_sub_arg_depth == Some(d as u8) && d < 255,
                            None => common_sub_arg_depth is None,
                        },
                    decreases items.len() - i,
                {
                    let ghost sub_items = items@.subrange(0, i as int);
                    let ghost ext = items@.subrange(0, i + 1);
                    assert(ext.drop_last() =~= sub_items);
                    assert(ext.last() == items@[i as int]);
                    proof {
                        lemma_item_nesting(items@, i as int);
                    }
                    let sub = match self.parse_arg_json(&items[i], book) {
                        Ok(sub) => sub,
                        Err(e) => {
                            proof {
                                lemma_items_err_prefix(*self, items@, i + 1, *book);
                            }
                            return Err(e);
                        },
                    };
                    let sub_arg_depth = sub._vector_depth;
                    if let Some(check_depth) = common_sub_arg_depth {
                        if check_depth != sub_arg_depth {
                            proof {
                                lemma_items_err_prefix(*self, items@, i + 1, *book);
                            }
                            return Err(
                                CliError::CommandArgumentError(
                                    String::from_str("Variable vector depth"),
                                ),
                            );
                        }
                    }
                    proof {
                        lemma_arg_depth_bound(*self, items@[i as int], *book);
                    }
                    common_sub_arg_depth = Some(sub_arg_depth);
                    let mut sub_arg_bcs = sub.arg;
                    bcs.append(&mut sub_arg_bcs);
                    i = i + 1;
                    assert(bcs@ =~= prefix + (spec_arg_items(*self, ext, *book)->Ok_0).1);
                }
                assert(items@.subrange(0, items@.len() as int) =~= items@);
                let depth: u8 = match common_sub_arg_depth {
                    Some(d) => d + 1,
                    None => 1,
                };
                Ok(ArgWithType { _ty: *self, _vector_depth: depth, arg: bcs })
            },
            JsonValue::Null => Err(
                CliError::CommandArgumentError(String::from_str("Null argument")),
            ),
            JsonValue::Object => Err(
                CliError::CommandArgumentError(String::from_str("JSON object argument")),
            ),
        }
    }
}

/// Once a prefix of the elements fails, all of them fail the same way.
pub proof fn lemma_items_err_prefix(t: FunctionArgType, items: Seq<JsonValue>, k: int, book: ProfileBook)
    requires
        0 <= k <= items.len(),
        spec_arg_items(t, items.subrange(0, k), book) is Err,
    ensures
        spec_arg_items(t, items, book) == spec_arg_items(t, items.subrange(0, k), book),
    decreases items.len() - k,
{
    if k < items.len() {
        let ext = items.subrange(0, k + 1);
        assert(ext.drop_last() =~= items.subrange(0, k));
        lemma_items_err_prefix(t, items, k + 1, book);
    } else {
        assert(items.subrange(0, k) =~= items);
    }
}

/// An element of an array nests no deeper than the array's elements do.
pub proof fn lemma_item_nesting(items: Seq<JsonValue>, i: int)
    requires
        0 <= i < items.len(),
    ensures
        json_nesting(items[i]) <= items_nesting(items),
    decreases items.len(),
{
    if i < items.len() - 1 {
        lemma_item_nesting(items.drop_last(), i);
        assert(items.drop_last()[i] == items[i]);
    }
}

/// The vector depth of an encoded argument is never more than the nesting
/// of arrays in the JSON it came from.
pub proof fn lemma_arg_depth_bound(t: FunctionArgType, v: JsonValue, book: ProfileBook)
    ensures
        spec_arg_json(t, v, book) matches Ok((d, _)) ==> d <= json_nesting(v),
    decreases v, 0nat,
{
    match v {
        JsonValue::Array(items) => {
            lemma_items_depth_bound(t, items@, book);
        },
        _ => {},
    }
}

/// The common depth of encoded elements is never more than their nesting.
pub proof fn lemma_items_depth_bound(t: FunctionArgType, items: Seq<JsonValue>, book: ProfileBook)
    ensures
        spec_arg_items(t, items, book) matches Ok((Some(d), _)) ==> d <= items_nesting(items),
    decreases items, 1nat,
{
    if items.len() > 0 {
        lemma_items_depth_bound(t, items.drop_last(), book);
        lemma_arg_depth_bound(t, items.last(), book);
    }
}

/// The vector depth of an encoded argument is exactly the nesting of
/// arrays in the JSON it came from.
pub proof fn lemma_arg_depth_is_nesting(t: FunctionArgType, v: JsonValue, book: ProfileBook)
    ensures
        spec_arg_json(t, v, book) matches Ok((d, _)) ==> d == json_nesting(v),
    decreases v, 0nat,
{
    match v {
        JsonValue::Array(items) => {
            lemma_items_depth_is_nesting(t, items@, book);
        },
        _ => {},
    }
}

/// Elements that encode at a common depth all nest exactly that deep.
pub proof fn lemma_items_depth_is_nesting(t: FunctionArgType, items: Seq<JsonValue>, book: ProfileBook)
    ensures
        spec_arg_items(t, items, book) matches Ok((c, _)) ==> (match c {
            Some(d) => d == items_nesting(items),
            None => items.len() == 0,
        }),
    decreases items, 1nat,
{
    if items.len() > 0 {
        let init = items.drop_last();
        lemma_items_depth_is_nesting(t, init, book);
        lemma_arg_depth_is_nesting(t, items.last(), book);
        if init.len() == 0 {
            assert(items_nesting(init) == 0);
        }
    }
}

/// Elements that all encode, at one common depth `d`, encode together as
/// that depth and their encodings one after the other.
pub proof fn lemma_arg_items_all_ok(
    t: FunctionArgType,
    items: Seq<JsonValue>,
    book: ProfileBook,
    d: nat,
    rs: Seq<Seq<u8>>,
)
    requires
        rs.len() == items.len(),
        forall|i: int| 0 <= i < items.len() ==> spec_arg_json(t, #[trigger] items[i], book) == Ok::<
            (nat, Seq<u8>),
            ArgFault,
        >((d, rs[i])),
    ensures
        spec_arg_items(t, items, book) == (if items.len() == 0 {
            Ok::<(Option<nat>, Seq<u8>), ArgFault>((None, Seq::empty()))
        } else {
            Ok::<(Option<nat>, Seq<u8>), ArgFault>((Some(d), rs.flatten()))
        }),
    decreases items.len(),
{
    if items.len() > 0 {
        let n = items.len() - 1;
        assert(items.last() == items[n]);
        lemma_arg_items_all_ok(t, items.drop_last(), book, d, rs.drop_last());
        assert(rs.drop_last().push(rs.last()) =~= rs);
        rs.drop_last().lemma_flatten_push(rs.last());
        if n == 0 {
            assert(rs.drop_last() =~= Seq::<Seq<u8>>::empty());
            assert(rs.drop_last().flatten() =~= Seq::<u8>::empty());
            assert(Seq::<u8>::empty() + rs.last() =~= rs.last());
        }
    }
}

/// A JSON array whose elements all encode at one common depth `d` encodes
/// at depth `d + 1` (depth 1 when empty) as the ULEB128 element count
/// followed by the elements' encodings in order.
pub proof fn lemma_arg_array(
    t: FunctionArgType,
    items: Vec<JsonValue>,
    book: ProfileBook,
    d: nat,
    rs: Seq<Seq<u8>>,
)
    requires
        rs.len() == items@.len(),
        forall|i: int| 0 <= i < items@.len() ==> spec_arg_json(t, #[trigger] items@[i], book) == Ok::<
            (nat, Seq<u8>),
            ArgFault,
        >((d, rs[i])),
    ensures
        spec_arg_json(t, JsonValue::Array(items), book) == Ok::<(nat, Seq<u8>), ArgFault>(
            (if items@.len() == 0 { 1nat } else { d + 1 }, uleb128(items@.len()) + rs.flatten()),
        ),
{
    lemma_arg_items_all_ok(t, items@, book, d, rs);
    if items@.len() == 0 {
        assert(rs =~= Seq::<Seq<u8>>::empty());
    }
}

/// The JSON value type of `serde_json`.
#[verifier::external_type_specification]
#[verifier::external_body]
pub struct ExJsonValue(serde_json::Value);

/// The JSON value `serde_json::from_str` reads from `text`, if the text is
/// JSON.
pub uninterp spec fn spec_json_parse(text: Seq<char>) -> Option<JsonValue>;

/// Moves a `serde_json` value into the library's JSON value, variant by
/// variant; a number becomes the text `serde_json` prints for it. Nothing
/// is claimed of the result.
#[verifier::external_body]
fn json_from_serde(v: serde_json::Value) -> JsonValue {
    match v {
        serde_json::Value::Null => JsonValue::Null,
        serde_json::Value::Bool(b) => JsonValue::Bool(b),
        serde_json::Value::Number(n) => JsonValue::Number(n.to_string()),
        serde_json::Value::String(s) => JsonValue::String(s),
        serde_json::Value::Array(a) => JsonValue::Array(a.into_iter().map(json_from_serde).collect()),
        serde_json::Value::Object(_) => JsonValue::Object,
    }
}

/// Printable ASCII text with no double quote and no backslash: inside
/// double quotes it is a JSON string literal that stands for itself.
pub open spec fn plain_text(v: Seq<char>) -> bool {
    forall|i: int| 0 <= i < v.len() ==> ' ' <= #[trigger] v[i] <= '~' && v[i] != '"' && v[i] != '\\'
}

/// `v` in double quotes.
pub open spec fn quoted(v: Seq<char>) -> Seq<char> {
    seq!['"'] + v + seq!['"']
}

/// `r` reads a JSON string literal of plain text as that text.
pub open spec fn reads_plain_strings(text: Seq<char>, r: Result<JsonValue, String>) -> bool {
    forall|v: Seq<char>|
        text == quoted(v) && plain_text(v) ==> (r matches Ok(j) && j matches JsonValue::String(s) && s@
            == v)
}

/// Calls `serde_json::from_str` for a `serde_json::Value`. Claimed: the
/// result is the (named) JSON value of the text when the text is JSON, and
/// the text of the parse error otherwise; arrays in it nest fewer than 128
/// deep, the depth at which the crate's parser stops with an error; a
/// double-quoted literal of plain text (no quote, backslash or control
/// character) is read as that text.
#[verifier::external_body]
fn json_parse(text: &str) -> (r: Result<JsonValue, String>)
    ensures
        r is Ok <==> spec_json_parse(text@) is Some,
        r matches Ok(v) ==> spec_json_parse(text@) == Some(v) && json_nesting(v) < 128,
        reads_plain_strings(text@, r),
{
    match serde_json::from_str::<serde_json::Value>(text) {
        Ok(v) => Ok(json_from_serde(v)),
        Err(e) => Err(e.to_string()),
    }
}

/// The index of the first `:` in `s`, if there is one.
pub open spec fn first_colon(s: Seq<char>) -> Option<int> {
    if exists|i: int| 0 <= i < s.len() && s[i] == ':' && forall|j: int| 0 <= j < i ==> s[j] != ':' {
        Some(
            choose|i: int| 0 <= i < s.len() && s[i] == ':' && forall|j: int| 0 <= j < i ==> s[j] != ':',
        )
    } else {
        None
    }
}

/// Types whose plain (non-array) values are written without JSON quotes.
pub open spec fn needs_quotes(t: FunctionArgType) -> bool {
    t == FunctionArgType::Address || t == FunctionArgType::Hex || t == FunctionArgType::String || t
        == FunctionArgType::Raw
}

/// The JSON text of the value part `v` of an argument of type `t`: wrapped
/// in double quotes when it is not an array and `t` is written unquoted.
pub open spec fn json_text(t: FunctionArgType, v: Seq<char>) -> Seq<char> {
    if !(v.len() > 0 && v[0] == '[') && needs_quotes(t) {
        seq!['"'] + v + seq!['"']
    } else {
        v
    }
}

/// Why `type:value` text could not be read as an argument.
pub enum ArgTextFault {
    /// No `:` separates a type from a value.
    NotAPair,
    /// The part before the first `:` names no argument type.
    UnknownType,
    /// The value is not JSON.
    NotJson,
    /// The JSON value is not a value of the type.
    Arg(ArgFault),
}

/// The argument that `type:value` text stands for: the type is the text
/// before the first `:`, the value is the JSON after it.
pub open spec fn spec_arg_from_str(s: Seq<char>, book: ProfileBook) -> Result<
    (FunctionArgType, nat, Seq<u8>),
    ArgTextFault,
> {
    match first_colon(s) {
        None => Err(ArgTextFault::NotAPair),
        Some(k) => match spec_arg_type_from_str(s.subrange(0, k)) {
            None => Err(ArgTextFault::UnknownType),
            Some(t) => match spec_json_parse(json_text(t, s.subrange(k + 1, s.len() as int))) {
                None => Err(ArgTextFault::NotJson),
                Some(v) => match spec_arg_json(t, v, book) {
                    Ok((d, b)) => Ok((t, d, b)),
                    Err(f) => Err(ArgTextFault::Arg(f)),
                },
            },
        },
    }
}

/// A string argument's value is quoted before it is read as JSON: when
/// the quoted value reads as that very text (as JSON reads plain text),
/// `string:<v>` is the BCS byte sequence of the UTF-8 bytes of `v`, at
/// depth 0.
pub proof fn lemma_string_arg_quoted(v: Seq<char>, book: ProfileBook, j: JsonValue)
    requires
        plain_text(v),
        !(v.len() > 0 && v[0] == '['),
        v.len() <= MAX_SEQUENCE_LENGTH,
        spec_json_parse(quoted(v)) == Some(j),
        j matches JsonValue::String(s) && s@ == v,
    ensures
        spec_arg_from_str("string:"@ + v, book) == Ok::<(FunctionArgType, nat, Seq<u8>), ArgTextFault>(
            (FunctionArgType::String, 0nat, bcs_seq(v.map_values(|c: char| c as u8))),
        ),
{
    lemma_string_prefix(v);
    assert(json_text(FunctionArgType::String, v) == quoted(v));
    assert forall|i: int| 0 <= i < v.len() implies '\0' <= #[trigger] v[i] <= '\u{7f}' by {}
    assert(vstd::utf8::is_ascii_chars(v));
    vstd::utf8::is_ascii_chars_encode_utf8(v);
    assert(vstd::utf8::encode_utf8(v) =~= v.map_values(|c: char| c as u8));
}

/// `string:<v>` names the string type, and its value is `v`.
pub proof fn lemma_string_prefix(v: Seq<char>)
    ensures
        first_colon("string:"@ + v) == Some(6int),
        ("string:"@ + v).subrange(0, 6) == "string"@,
        spec_arg_type_from_str("string"@) == Some(FunctionArgType::String),
        ("string:"@ + v).subrange(7, ("string:"@ + v).len() as int) == v,
{
    reveal_strlit("string:");
    reveal_strlit("string");
    let s = "string:"@ + v;
    assert(s[6] == ':');
    assert forall|i: int| 0 <= i < 6 implies s[i] != ':' by {}
    assert(first_colon(s) == Some(6int));
    assert(s.subrange(0, 6) =~= "string"@);
    assert(all_ascii("string"@));
    assert(lowercase_text("string"@) =~= "string"@);
    reveal_strlit("address");
    reveal_strlit("bool");
    reveal_strlit("hex");
    assert("string"@.len() != "address"@.len());
    assert("string"@.len() != "bool"@.len());
    assert("string"@.len() != "hex"@.len());
    assert(spec_arg_type_from_str("string"@) == Some(FunctionArgType::String));
    assert(s.subrange(7, s.len() as int) =~= v);
}

/// `e` is the error the CLI reports for `fault` on the text `s`.
pub open spec fn arg_text_error(e: CliError, s: Seq<char>, fault: ArgTextFault) -> bool {
    match fault {
        ArgTextFault::NotAPair => e matches CliError::CommandArgumentError(m) && m@
            == "Arguments must be pairs of <type>:<arg> e.g. bool:true"@,
        ArgTextFault::UnknownType => e matches CliError::CommandArgumentError(m) && m@
            == invalid_arg_type_message(s.subrange(0, first_colon(s)->0)),
        ArgTextFault::NotJson => e is UnexpectedError,
        ArgTextFault::Arg(f) => arg_fault_error(e, spec_arg_type_from_str(s.subrange(0, first_colon(s)->0))->0, f),
    }
}

/// A transaction argument of a Move script.
pub enum TransactionArgument {
    U8(u8),
    U64(u64),
    U128(u128),
    Address(AccountAddress),
    U8Vector(Vec<u8>),
    Bool(bool),
    U16(u16),
    U32(u32),
    /// A 256-bit number, as its 32 little-endian bytes.
    U256([u8; 32]),
}

impl ArgWithType {
    /// An address argument.
    pub fn address(account_address: AccountAddress) -> (r: ArgWithType)
        ensures
            r._ty == FunctionArgType::Address,
            r._vector_depth == 0,
            r.arg@ == account_address.0@,
    {
        let arg = match bcs_encode_array32(&account_address.0) {
            Ok(b) => b,
            Err(_) => Vec::new(),
        };
        ArgWithType { _ty: FunctionArgType::Address, _vector_depth: 0, arg }
    }

    /// A `u64` argument.
    pub fn u64(arg: u64) -> (r: ArgWithType)
        ensures
            r._ty == FunctionArgType::U64,
            r._vector_depth == 0,
            r.arg@ == le_bytes(arg as nat, 8),
    {
        let bytes = match bcs_encode_u64(arg) {
            Ok(b) => b,
            Err(_) => Vec::new(),
        };
        ArgWithType { _ty: FunctionArgType::U64, _vector_depth: 0, arg: bytes }
    }

    /// A byte-vector argument, BCS-encoded with its length.
    pub fn bytes(arg: Vec<u8>) -> (r: ArgWithType)
        requires
            arg@.len() <= MAX_SEQUENCE_LENGTH,
        ensures
            r._ty == FunctionArgType::Raw,
            r._vector_depth == 0,
            r.arg@ == bcs_seq(arg@),
    {
        let bytes = match bcs_encode_bytes(&arg) {
            Ok(b) => b,
            Err(_) => Vec::new(),
        };
        ArgWithType { _ty: FunctionArgType::Raw, _vector_depth: 0, arg: bytes }
    }

    /// An argument of raw bytes, taken as they are.
    pub fn raw(arg: Vec<u8>) -> (r: ArgWithType)
        ensures
            r._ty == FunctionArgType::Raw,
            r._vector_depth == 0,
            r.arg@ == arg@,
    {
        ArgWithType { _ty: FunctionArgType::Raw, _vector_depth: 0, arg }
    }

    /// Reads `type:value` text: the type before the first `:`, the value
    /// after it as JSON (quoted first for address, hex, string and raw
    /// values that are not arrays). Does not support string values that
    /// contain `,`, `[` or `]`.
    pub fn from_str(s: &str, book: &ProfileBook) -> (r: Result<ArgWithType, CliError>)
        ensures
            match (r, spec_arg_from_str(s@, *book)) {
                (Ok(a), Ok((t, d, b))) => a._ty == t && a._vector_depth as nat == d && a.arg@ == b,
                (Err(e), Err(f)) => arg_text_error(e, s@, f),
                _ => false,
            },
            forall|v: Seq<char>|
                s@ == "string:"@ + v && plain_text(v) && !(v.len() > 0 && v[0] == '[') && v.len()
                    <= MAX_SEQUENCE_LENGTH ==> (r matches Ok(a) && a._ty == FunctionArgType::String
                    && a._vector_depth == 0 && a.arg@ == bcs_seq(v.map_values(|c: char| c as u8))),
    {
        let cs = crate::text::chars_of(s);
        let n = cs.len();
        let mut k: usize = 0;
        while k < n && cs[k] != ':'
            invariant
                cs@ == s@,
                n == cs@.len(),
                k <= n,
                forall|j: int| 0 <= j < k ==> cs@[j] != ':',
            decreases n - k,
        {
            k = k + 1;
        }
        if k == n {
            proof {
                if exists|i: int| 0 <= i < s@.len() && s@[i] == ':' && forall|j: int| 0 <= j < i ==> s@[j] != ':' {
                    let i = choose|i: int| 0 <= i < s@.len() && s@[i] == ':' && forall|j: int| 0 <= j < i ==> s@[j] != ':';
                    assert(cs@[i] != ':');
                }
                assert forall|v: Seq<char>| s@ != "string:"@ + v by {
                    if s@ == "string:"@ + v {
                        lemma_string_prefix(v);
                    }
                }
            }
            return Err(
                CliError::CommandArgumentError(
                    String::from_str("Arguments must be pairs of <type>:<arg> e.g. bool:true"),
                ),
            );
        }
        proof {
            assert(0 <= k < s@.len() && s@[k as int] == ':' && forall|j: int| 0 <= j < k ==> s@[j] != ':');
            let i = choose|i: int| 0 <= i < s@.len() && s@[i] == ':' && forall|j: int| 0 <= j < i ==> s@[j] != ':';
            if i < k {
                assert(cs@[i] != ':');
            } else if k < i {
                assert(s@[k as int] != ':');
            }
            assert(first_colon(s@) == Some(k as int));
        }
        let ty_text = s.substring_char(0, k);
        let value_text = s.substring_char(k + 1, n);
        let ty = match FunctionArgType::from_str(ty_text) {
            Ok(t) => t,
            Err(e) => {
                proof {
                    assert forall|v: Seq<char>| s@ != "string:"@ + v by {
                        if s@ == "string:"@ + v {
                            lemma_string_prefix(v);
                            assert(ty_text@ =~= "string"@);
                        }
                    }
                }
                return Err(e);
            },
        };
        let quote = needs_quote_exec(ty);
        let starts_bracket = value_text.unicode_len() > 0 && value_text.get_char(0) == '[';
        let json = if !starts_bracket && quote {
            proof {
                reveal_strlit("\"");
            }
            let q1 = concat_text("\"", value_text);
            let q = concat_text(q1.as_str(), "\"");
            assert(q@ =~= json_text(ty, value_text@));
            json_parse(q.as_str())
        } else {
            json_parse(value_text)
        };
        proof {
            assert forall|v: Seq<char>|
                s@ == "string:"@ + v && plain_text(v) && !(v.len() > 0 && v[0] == '[') && v.len()
                    <= MAX_SEQUENCE_LENGTH implies spec_arg_from_str(s@, *book) == Ok::<
                    (FunctionArgType, nat, Seq<u8>),
                    ArgTextFault,
                >((FunctionArgType::String, 0nat, bcs_seq(v.map_values(|c: char| c as u8)))) by {
                lemma_string_prefix(v);
                assert(k == 6);
                assert(ty_text@ =~= "string"@);
                assert(ty == FunctionArgType::String);
                assert(value_text@ =~= v);
                assert(json_text(ty, value_text@) == quoted(v));
                let j = json->Ok_0;
                lemma_string_arg_quoted(v, *book, j);
            }
        }
        match json {
            Ok(v) => ty.parse_arg_json(&v, book),
            Err(m) => Err(CliError::UnexpectedError(m)),
        }
    }
}

fn needs_quote_exec(t: FunctionArgType) -> (r: bool)
    ensures
        r == needs_quotes(t),
{
    match t {
        FunctionArgType::Address | FunctionArgType::Hex | FunctionArgType::String
        | FunctionArgType::Raw => true,
        _ => false,
    }
}

/// Whether an argument of element type `t`, vector depth `d` and encoding
/// `b` converts to a transaction argument.
pub open spec fn try_into_succeeds(t: FunctionArgType, d: nat, b: Seq<u8>) -> bool {
    if d > 0 && t != FunctionArgType::U8 {
        false
    } else {
        match t {
            FunctionArgType::Address => b.len() == 32,
            FunctionArgType::Bool => b.len() == 1 && b[0] <= 1,
            FunctionArgType::Hex => bcs_seq_decode(b) is Some,
            FunctionArgType::String => bcs_seq_decode(b) is Some,
            FunctionArgType::Raw => bcs_seq_decode(b) is Some,
            FunctionArgType::U8 => if d == 0 {
                b.len() == 1
            } else if d == 1 {
                bcs_seq_decode(b) is Some
            } else {
                false
            },
            FunctionArgType::U16 => b.len() == 2,
            FunctionArgType::U32 => b.len() == 4,
            FunctionArgType::U64 => b.len() == 8,
            FunctionArgType::U128 => b.len() == 16,
            FunctionArgType::U256 => b.len() == 32,
        }
    }
}

/// `v` is the transaction argument that element type `t`, vector depth
/// `d` and encoding `b` decode to.
pub open spec fn txn_arg_decodes(v: TransactionArgument, t: FunctionArgType, d: nat, b: Seq<u8>) -> bool {
    match t {
        FunctionArgType::Address => v matches TransactionArgument::Address(a) && a.0@ == b,
        FunctionArgType::Bool => v matches TransactionArgument::Bool(x) && x == (b[0] == 1),
        FunctionArgType::Hex => v matches TransactionArgument::U8Vector(x) && bcs_seq_decode(b)
            == Some(x@),
        FunctionArgType::String => v matches TransactionArgument::U8Vector(x) && bcs_seq_decode(b)
            == Some(x@),
        FunctionArgType::Raw => v matches TransactionArgument::U8Vector(x) && bcs_seq_decode(b)
            == Some(x@),
        FunctionArgType::U8 => if d == 0 {
            v matches TransactionArgument::U8(x) && x as nat == le_value(b)
        } else {
            v matches TransactionArgument::U8Vector(x) && bcs_seq_decode(b) == Some(x@)
        },
        FunctionArgType::U16 => v matches TransactionArgument::U16(x) && x as nat == le_value(b),
        FunctionArgType::U32 => v matches TransactionArgument::U32(x) && x as nat == le_value(b),
        FunctionArgType::U64 => v matches TransactionArgument::U64(x) && x as nat == le_value(b),
        FunctionArgType::U128 => v matches TransactionArgument::U128(x) && x as nat == le_value(
            b,
        ),
        FunctionArgType::U256 => v matches TransactionArgument::U256(x) && x@ == b,
    }
}

/// The label a failed decoding of type `t` at depth `d` is reported with.
pub open spec fn txn_label(t: FunctionArgType, d: nat) -> Seq<char> {
    if t == FunctionArgType::U8 && d == 1 {
        "vector<u8>"@
    } else {
        arg_type_name(t)
    }
}

/// `e` is the error the CLI reports when an argument of element type `t`
/// and vector depth `d` does not convert.
pub open spec fn try_into_error(e: CliError, t: FunctionArgType, d: nat) -> bool {
    if d > 0 && t != FunctionArgType::U8 {
        e matches CliError::UnexpectedError(m) && m@
            == "Unable to parse non-u8 vector to transaction argument"@
    } else if t == FunctionArgType::U8 && d > 1 {
        e matches CliError::UnexpectedError(m) && m@ == "Unable to parse u8 vector of depth "@
            + crate::decimal::decimal_text(d) + " to transaction argument"@
    } else {
        e matches CliError::UnableToParse(l, _) && l@ == txn_label(t, d)
    }
}

fn txn_arg_error(label: &'static str, e: bcs::Error) -> (r: CliError)
    ensures
        r matches CliError::UnableToParse(l, _) && l == label,
{
    CliError::UnableToParse(label, e.to_string())
}

impl ArgWithType {
    /// Converts the argument to a transaction argument of a Move script:
    /// scalars, and vectors of `u8` only.
    pub fn try_into(self) -> (r: Result<TransactionArgument, CliError>)
        ensures
            r is Ok <==> try_into_succeeds(self._ty, self._vector_depth as nat, self.arg@),
            r matches Ok(v) ==> txn_arg_decodes(v, self._ty, self._vector_depth as nat, self.arg@),
            r matches Err(e) ==> try_into_error(e, self._ty, self._vector_depth as nat),
    {
        if self._vector_depth > 0 && self._ty != FunctionArgType::U8 {
            return Err(
                CliError::UnexpectedError(
                    String::from_str("Unable to parse non-u8 vector to transaction argument"),
                ),
            );
        }
        let data = self.arg.as_slice();
        match self._ty {
            FunctionArgType::Address => match bcs_decode_array32(data) {
                Ok(a) => Ok(TransactionArgument::Address(AccountAddress(a))),
                Err(e) => Err(txn_arg_error("address", e)),
            },
            FunctionArgType::Bool => match bcs_decode_bool(data) {
                Ok(b) => Ok(TransactionArgument::Bool(b)),
                Err(e) => Err(txn_arg_error("bool", e)),
            },
            FunctionArgType::Hex => match bcs_decode_bytes(data) {
                Ok(b) => Ok(TransactionArgument::U8Vector(b)),
                Err(e) => Err(txn_arg_error("hex", e)),
            },
            FunctionArgType::String => match bcs_decode_bytes(data) {
                Ok(b) => Ok(TransactionArgument::U8Vector(b)),
                Err(e) => Err(txn_arg_error("string", e)),
            },
            FunctionArgType::U8 => {
                if self._vector_depth == 0 {
                    match bcs_decode_u8(data) {
                        Ok(b) => Ok(TransactionArgument::U8(b)),
                        Err(e) => Err(txn_arg_error("u8", e)),
                    }
                } else if self._vector_depth == 1 {
                    match bcs_decode_bytes(data) {
                        Ok(b) => Ok(TransactionArgument::U8Vector(b)),
                        Err(e) => Err(txn_arg_error("vector<u8>", e)),
                    }
                } else {
                    let depth = crate::decimal::u64_to_decimal(self._vector_depth as u64);
                    let a = concat_text("Unable to parse u8 vector of depth ", depth.as_str());
                    Err(CliError::UnexpectedError(concat_text(a.as_str(), " to transaction argument")))
                }
            },
            FunctionArgType::U16 => match bcs_decode_u16(data) {
                Ok(b) => Ok(TransactionArgument::U16(b)),
                Err(e) => Err(txn_arg_error("u16", e)),
            },
            FunctionArgType::U32 => match bcs_decode_u32(data) {
                Ok(b) => Ok(TransactionArgument::U32(b)),
                Err(e) => Err(txn_arg_error("u32", e)),
            },
            FunctionArgType::U64 => match bcs_decode_u64(data) {
                Ok(b) => Ok(TransactionArgument::U64(b)),
                Err(e) => Err(txn_arg_error("u64", e)),
            },
            FunctionArgType::U128 => match bcs_decode_u128(data) {
                Ok(b) => Ok(TransactionArgument::U128(b)),
                Err(e) => Err(txn_arg_error("u128", e)),
            },
            FunctionArgType::U256 => match bcs_decode_array32(data) {
                Ok(a) => Ok(TransactionArgument::U256(a)),
                Err(e) => Err(txn_arg_error("u256", e)),
            },
            FunctionArgType::Raw => match bcs_decode_bytes(data) {
                Ok(b) => Ok(TransactionArgument::U8Vector(b)),
                Err(e) => Err(txn_arg_error("raw", e)),
            },
        }
    }
}

/// The largest value of an integer argument type.
pub open spec fn uint_max(t: FunctionArgType) -> nat {
    match t {
        FunctionArgType::U8 => 0xff,
        FunctionArgType::U16 => 0xffff,
        FunctionArgType::U32 => 0xffff_ffff,
        FunctionArgType::U64 => 0xffff_ffff_ffff_ffff,
        FunctionArgType::U128 => 0xffff_ffff_ffff_ffff_ffff_ffff_ffff_ffff,
        _ => u256_max(),
    }
}

/// The number of bytes of an integer argument type.
pub open spec fn uint_width(t: FunctionArgType) -> nat {
    match t {
        FunctionArgType::U8 => 1,
        FunctionArgType::U16 => 2,
        FunctionArgType::U32 => 4,
        FunctionArgType::U64 => 8,
        FunctionArgType::U128 => 16,
        _ => 32,
    }
}

/// `t` is one of the integer argument types.
pub open spec fn is_uint_type(t: FunctionArgType) -> bool {
    t == FunctionArgType::U8 || t == FunctionArgType::U16 || t == FunctionArgType::U32 || t
        == FunctionArgType::U64 || t == FunctionArgType::U128 || t == FunctionArgType::U256
}

proof fn lemma_uint_fits(t: FunctionArgType, v: nat)
    requires
        is_uint_type(t),
        v <= uint_max(t),
    ensures
        v < vstd::arithmetic::power::pow(256, uint_width(t)),
{
    reveal_with_fuel(vstd::arithmetic::power::pow, 17);
    if t == FunctionArgType::U256 {
        let b = crate::u256::base();
        assert(vstd::arithmetic::power::pow(256, 8) == b);
        vstd::arithmetic::power::lemma_pow_adds(256, 8, 8);
        vstd::arithmetic::power::lemma_pow_adds(256, 16, 16);
        assert(vstd::arithmetic::power::pow(256, 32) == b * b * b * b) by (nonlinear_arith)
            requires
                vstd::arithmetic::power::pow(256, 16) == vstd::arithmetic::power::pow(256, 8)
                    * vstd::arithmetic::power::pow(256, 8),
                vstd::arithmetic::power::pow(256, 32) == vstd::arithmetic::power::pow(256, 16)
                    * vstd::arithmetic::power::pow(256, 16),
                vstd::arithmetic::power::pow(256, 8) == b,
        ;
    }
}

/// A standalone argument that encodes converts back, as a transaction
/// argument, to the value it was read from: the same number for the
/// integer types, `true` exactly for the text `true`, the decoded bytes for
/// hex, the UTF-8 bytes for strings, the address for addresses.
pub proof fn lemma_scalar_arg_roundtrip(t: FunctionArgType, s: Seq<char>, book: ProfileBook)
    requires
        spec_arg_str(t, s, book) is Ok,
        t != FunctionArgType::Raw,
    ensures
        try_into_succeeds(t, 0, spec_arg_str(t, s, book)->Ok_0),
        is_uint_type(t) ==> le_value(spec_arg_str(t, s, book)->Ok_0) == spec_parse_unsigned(
            s,
            uint_max(t),
        )->0,
        t == FunctionArgType::Bool ==> ((spec_arg_str(t, s, book)->Ok_0)[0] == 1 <==> s
            == "true"@),
        t == FunctionArgType::Hex ==> bcs_seq_decode(spec_arg_str(t, s, book)->Ok_0)
            == spec_hex_decode(s),
        t == FunctionArgType::String ==> bcs_seq_decode(spec_arg_str(t, s, book)->Ok_0) == Some(
            vstd::utf8::encode_utf8(s),
        ),
        t == FunctionArgType::Address ==> spec_load_account_arg(s, book) == Ok::<Seq<u8>, crate::address::AccountArgFault>(
            spec_arg_str(t, s, book)->Ok_0),
{
    let b = spec_arg_str(t, s, book)->Ok_0;
    if is_uint_type(t) {
        let v = spec_parse_unsigned(s, uint_max(t))->0;
        assert(b == le_bytes(v, uint_width(t)));
        lemma_uint_fits(t, v);
        crate::bcs_codec::lemma_le_roundtrip(v, uint_width(t));
        crate::bcs_codec::lemma_le_bytes_len(v, uint_width(t));
    } else if t == FunctionArgType::Hex {
        crate::bcs_codec::lemma_bcs_seq_roundtrip(spec_hex_decode(s)->0);
    } else if t == FunctionArgType::String {
        crate::bcs_codec::lemma_bcs_seq_roundtrip(vstd::utf8::encode_utf8(s));
    } else if t == FunctionArgType::Address {
        let a = spec_load_account_arg(s, book)->Ok_0;
        crate::address::lemma_account_arg_len(s, book);
    } else {
        reveal_strlit("true");
        reveal_strlit("false");
    }
}

/// Reading a type's name gives back the type.
pub proof fn lemma_arg_type_name_roundtrip(t: FunctionArgType)
    ensures
        spec_arg_type_from_str(arg_type_name(t)) == Some(t),
{
    reveal_strlit("address");
    reveal_strlit("bool");
    reveal_strlit("hex");
    reveal_strlit("string");
    reveal_strlit("u8");
    reveal_strlit("u16");
    reveal_strlit("u32");
    reveal_strlit("u64");
    reveal_strlit("u128");
    reveal_strlit("u256");
    reveal_strlit("raw");
    let n = arg_type_name(t);
    assert(crate::text::all_ascii(n));
    assert(lowercase_text(n) =~= n);
    let names = seq![
        "address"@,
        "bool"@,
        "hex"@,
        "string"@,
        "u8"@,
        "u16"@,
        "u32"@,
        "u64"@,
        "u128"@,
        "u256"@,
        "raw"@,
    ];
    assert forall|i: int, j: int| 0 <= i < 11 && 0 <= j < 11 && i != j implies names[i]
        != names[j] by {
        if names[i] == names[j] {
            assert(names[i].len() == names[j].len());
            assert(names[i][0] == names[j][0]);
            assert(names[i][names[i].len() - 1] == names[j][names[j].len() - 1]);
            if names[i].len() > 2 {
                assert(names[i][1] == names[j][1]);
            }
        }
    }
    match t {
        FunctionArgType::Address => assert(n == names[0]),
        FunctionArgType::Bool => assert(n == names[1]),
        FunctionArgType::Hex => assert(n == names[2]),
        FunctionArgType::String => assert(n == names[3]),
        FunctionArgType::U8 => assert(n == names[4]),
        FunctionArgType::U16 => assert(n == names[5]),
        FunctionArgType::U32 => assert(n == names[6]),
        FunctionArgType::U64 => assert(n == names[7]),
        FunctionArgType::U128 => assert(n == names[8]),
        FunctionArgType::U256 => assert(n == names[9]),
        FunctionArgType::Raw => assert(n == names[10]),
    }
}

} // verus!
