use movement::arg::{ArgWithType, FunctionArgType, TransactionArgument};
use movement::address::ProfileBook;
use movement::decimal::{parse_bool, parse_unsigned, u64_to_decimal};
use movement::package::RngArgs;
use movement::text::{concat_text, starts_with, str_eq, trim};
use movement::u256::parse_u256_le_bytes;
use movement::uleb128::write_u64_as_uleb128;
use movement::vm::{rpc_response, ResponseContent, SubmitTransactionArgs};

fn no_config() -> ProfileBook {
    ProfileBook { profiles: None, missing: "config.yaml".to_string() }
}

#[test]
fn uleb128_small_values_take_one_byte() {
    let mut out = Vec::new();
    write_u64_as_uleb128(&mut out, 0);
    assert_eq!(out, vec![0u8]);
    let mut out = Vec::new();
    write_u64_as_uleb128(&mut out, 127);
    assert_eq!(out, vec![127u8]);
}

#[test]
fn uleb128_multi_byte_values() {
    let mut out = Vec::new();
    write_u64_as_uleb128(&mut out, 128);
    assert_eq!(out, vec![0x80u8, 0x01]);
    let mut out = vec![9u8];
    write_u64_as_uleb128(&mut out, 300);
    assert_eq!(out, vec![9u8, 0xac, 0x02]);
    let mut out = Vec::new();
    write_u64_as_uleb128(&mut out, 16384);
    assert_eq!(out, vec![0x80u8, 0x80, 0x01]);
}

#[test]
fn bcs_integers_are_little_endian() {
    let book = no_config();
    assert_eq!(ArgWithType::u64(1).arg, vec![1u8, 0, 0, 0, 0, 0, 0, 0]);
    assert_eq!(FunctionArgType::U16.parse_arg_str("258", &book).unwrap(), vec![2u8, 1]);
    assert_eq!(FunctionArgType::U32.parse_arg_str("16909060", &book).unwrap(), vec![4u8, 3, 2, 1]);
    assert_eq!(
        FunctionArgType::U128.parse_arg_str("1", &book).unwrap(),
        [vec![1u8], vec![0u8; 15]].concat()
    );
    let big = ArgWithType::u64(0x0100_0000_0000_0001);
    assert!(matches!(big.try_into(), Ok(TransactionArgument::U64(0x0100_0000_0000_0001))));
    let mut short = ArgWithType::u64(1);
    short.arg.truncate(2);
    assert!(short.try_into().is_err());
}

#[test]
fn bcs_sequences_carry_their_length() {
    let book = no_config();
    assert_eq!(FunctionArgType::String.parse_arg_str("abc", &book).unwrap(), vec![3u8, 97, 98, 99]);
    assert_eq!(ArgWithType::bytes(vec![7u8, 8]).arg, vec![2u8, 7, 8]);
    match ArgWithType::raw(vec![2u8, 7, 8]).try_into() {
        Ok(TransactionArgument::U8Vector(v)) => assert_eq!(v, vec![7u8, 8]),
        _ => panic!("expected bytes"),
    }
    assert!(ArgWithType::raw(vec![3u8, 7, 8]).try_into().is_err());
    assert_eq!(FunctionArgType::Bool.parse_arg_str("true", &book).unwrap(), vec![1u8]);
    assert_eq!(FunctionArgType::Bool.parse_arg_str("false", &book).unwrap(), vec![0u8]);
}

#[test]
fn hex_round_trip() {
    let args = SubmitTransactionArgs { data: "0a0B".to_string() };
    assert_eq!(args.payload().unwrap(), vec![10u8, 11]);
    assert!(SubmitTransactionArgs { data: "abc".to_string() }.payload().is_err());
    assert!(SubmitTransactionArgs { data: "zz".to_string() }.payload().is_err());
    assert_eq!(rpc_response(ResponseContent::Bcs(vec![0u8, 255, 16]), String::new()).data, "00ff10");
    let mut seed = [0u8; 32];
    seed[0] = 0xab;
    let text = RngArgs::from_seed(seed).random_seed.unwrap();
    assert!(text.starts_with("ab00"));
    assert_eq!(RngArgs { random_seed: Some(text) }.key_seed().unwrap(), Some(seed));
}

#[test]
fn unsigned_parsing_follows_str_parse() {
    assert_eq!(parse_unsigned("+12", 255).unwrap(), 12);
    assert_eq!(parse_unsigned("255", 255).unwrap(), 255);
    assert_eq!(parse_unsigned("256", 255).unwrap_err(), "number too large to fit in target type");
    assert_eq!(parse_unsigned("", 255).unwrap_err(), "cannot parse integer from empty string");
    assert_eq!(parse_unsigned("1a", 255).unwrap_err(), "invalid digit found in string");
    assert_eq!(parse_unsigned("+", 255).unwrap_err(), "invalid digit found in string");
    assert_eq!(parse_unsigned("-1", 255).unwrap_err(), "invalid digit found in string");
    assert_eq!(parse_unsigned("9999a", 255).unwrap_err(), "number too large to fit in target type");
    assert_eq!(parse_bool("true").unwrap(), true);
    assert_eq!(parse_bool("false").unwrap(), false);
    assert_eq!(parse_bool("True").unwrap_err(), "provided string was not `true` or `false`");
}

#[test]
fn decimal_writing_reads_back() {
    assert_eq!(u64_to_decimal(0), "0");
    assert_eq!(u64_to_decimal(7), "7");
    assert_eq!(u64_to_decimal(1234567890), "1234567890");
    assert_eq!(u64_to_decimal(u64::MAX), "18446744073709551615");
    for v in [0u64, 9, 10, 99, 100, 65535, 4294967296] {
        let text = u64_to_decimal(v);
        assert_eq!(parse_unsigned(&text, u64::MAX as u128).unwrap(), v as u128);
    }
}

#[test]
fn u256_decimal_to_little_endian_bytes() {
    let one = parse_u256_le_bytes("1").unwrap();
    let mut expected = vec![0u8; 32];
    expected[0] = 1;
    assert_eq!(one, expected);
    let big = parse_u256_le_bytes("256").unwrap();
    let mut expected = vec![0u8; 32];
    expected[1] = 1;
    assert_eq!(big, expected);
    assert_eq!(parse_u256_le_bytes("-1").unwrap_err(), "invalid digit found in string");
    let max = "115792089237316195423570985008687907853269984665640564039457584007913129639935";
    assert_eq!(parse_u256_le_bytes(max).unwrap(), vec![255u8; 32]);
    let over = "115792089237316195423570985008687907853269984665640564039457584007913129639936";
    assert_eq!(parse_u256_le_bytes(over).unwrap_err(), "number too large to fit in target type");
}

#[test]
fn text_helpers() {
    assert_eq!(trim("  a b \n"), "a b");
    assert_eq!(trim("   "), "");
    assert_eq!(trim("\u{3000}x\u{a0}"), "x");
    assert!(starts_with("0xab", "0x"));
    assert!(!starts_with("0", "0x"));
    assert!(str_eq("abc", "abc"));
    assert!(!str_eq("abc", "abd"));
    assert_eq!(concat_text("ab", "cd"), "abcd");
}
