use movement::address::{
    load_account_arg, load_manifest_account_arg, AccountAddress, ProfileAccount, ProfileBook,
};
use movement::arg::{ArgWithType, FunctionArgType, JsonValue, TransactionArgument};
use movement::errors::CliError;
use movement::member::parse_member_id;

fn no_config() -> ProfileBook {
    ProfileBook { profiles: None, missing: ".movement/config.yaml".to_string() }
}

fn addr(last: u8) -> AccountAddress {
    let mut a = [0u8; 32];
    a[31] = last;
    AccountAddress(a)
}

fn book_with_alice() -> ProfileBook {
    ProfileBook {
        profiles: Some(vec![
            ProfileAccount { name: "alice".to_string(), account: Some(addr(7)), key_address: None },
            ProfileAccount { name: "bob".to_string(), account: None, key_address: Some(addr(9)) },
            ProfileAccount { name: "carol".to_string(), account: None, key_address: None },
        ]),
        missing: "config.yaml".to_string(),
    }
}

#[test]
fn address_literals() {
    let a = AccountAddress::from_hex_literal("0x1").unwrap();
    assert_eq!(a.0, addr(1).0);
    assert!(AccountAddress::from_hex_literal("1").is_err());
    assert!(AccountAddress::from_hex_literal("0xg").is_err());
    let long = format!("0x{}", "1".repeat(65));
    assert!(AccountAddress::from_hex_literal(&long).is_err());
    let full = format!("{}01", "0".repeat(62));
    assert_eq!(AccountAddress::from_str(&full).unwrap().0, addr(1).0);
    assert!(AccountAddress::from_hex("01").is_err());
}

#[test]
fn account_args_resolve_through_profiles() {
    let book = book_with_alice();
    assert_eq!(load_account_arg("0x2", &book).unwrap().0, addr(2).0);
    assert_eq!(load_account_arg("alice", &book).unwrap().0, addr(7).0);
    assert_eq!(load_account_arg("bob", &book).unwrap().0, addr(9).0);
    match load_account_arg("carol", &book) {
        Err(CliError::CommandArgumentError(m)) => {
            assert_eq!(m, "'--account' or '--profile' after using movement init must be provided")
        },
        _ => panic!("expected an error"),
    }
    match load_account_arg("dave", &book) {
        Err(CliError::CommandArgumentError(m)) => assert_eq!(m, "Profile dave not found"),
        _ => panic!("expected an error"),
    }
    match load_account_arg("dave", &no_config()) {
        Err(CliError::ConfigNotFoundError(m)) => assert_eq!(m, ".movement/config.yaml"),
        _ => panic!("expected an error"),
    }
    assert!(matches!(load_account_arg("0xzz", &book), Err(CliError::CommandArgumentError(_))));
}

#[test]
fn manifest_account_args() {
    let book = book_with_alice();
    assert!(load_manifest_account_arg("_", &book).unwrap().is_none());
    assert_eq!(load_manifest_account_arg("0x3", &book).unwrap().unwrap().0, addr(3).0);
    assert_eq!(load_manifest_account_arg("bob", &book).unwrap().unwrap().0, addr(9).0);
    match load_manifest_account_arg("alice", &book) {
        Err(CliError::CommandArgumentError(m)) => assert_eq!(m, "Invalid Move manifest account address"),
        _ => panic!("expected an error"),
    }
}

#[test]
fn arg_type_names() {
    assert!(matches!(FunctionArgType::from_str("U64"), Ok(FunctionArgType::U64)));
    assert!(matches!(FunctionArgType::from_str("address"), Ok(FunctionArgType::Address)));
    assert!(matches!(FunctionArgType::from_str("u7"), Err(CliError::CommandArgumentError(_))));
    for t in [
        FunctionArgType::Address,
        FunctionArgType::Bool,
        FunctionArgType::Hex,
        FunctionArgType::String,
        FunctionArgType::U8,
        FunctionArgType::U16,
        FunctionArgType::U32,
        FunctionArgType::U64,
        FunctionArgType::U128,
        FunctionArgType::U256,
        FunctionArgType::Raw,
    ] {
        let name = t.to_string();
        assert_eq!(FunctionArgType::from_str(&name).unwrap(), t);
    }
}

#[test]
fn scalar_args_encode_as_bcs() {
    let book = no_config();
    assert_eq!(FunctionArgType::U8.parse_arg_str("5", &book).unwrap(), vec![5u8]);
    assert_eq!(FunctionArgType::U16.parse_arg_str("258", &book).unwrap(), vec![2u8, 1]);
    assert_eq!(FunctionArgType::Bool.parse_arg_str("true", &book).unwrap(), vec![1u8]);
    assert_eq!(FunctionArgType::String.parse_arg_str("hi", &book).unwrap(), vec![2u8, 104, 105]);
    assert_eq!(FunctionArgType::Hex.parse_arg_str("0102", &book).unwrap(), vec![2u8, 1, 2]);
    assert!(FunctionArgType::Hex.parse_arg_str("0x0102", &book).is_err());
    assert_eq!(FunctionArgType::Raw.parse_arg_str("0102", &book).unwrap(), vec![1u8, 2]);
    assert_eq!(FunctionArgType::Address.parse_arg_str("0x1", &book).unwrap(), addr(1).0.to_vec());
    assert!(FunctionArgType::U8.parse_arg_str("256", &book).is_err());
}

#[test]
fn json_vectors_nest() {
    let book = no_config();
    let v = JsonValue::Array(vec![
        JsonValue::Number("1".to_string()),
        JsonValue::Number("2".to_string()),
    ]);
    let a = FunctionArgType::U8.parse_arg_json(&v, &book).unwrap();
    assert_eq!(a.arg, vec![2u8, 1, 2]);
    assert_eq!(a._vector_depth, 1);
    let mixed = JsonValue::Array(vec![JsonValue::Array(vec![]), JsonValue::Number("1".to_string())]);
    assert!(matches!(
        FunctionArgType::U8.parse_arg_json(&mixed, &book),
        Err(CliError::CommandArgumentError(_))
    ));
    assert!(FunctionArgType::U8.parse_arg_json(&JsonValue::Null, &book).is_err());
}

#[test]
fn typed_args_from_text() {
    let book = book_with_alice();
    let a = ArgWithType::from_str("u8:[1,2]", &book).unwrap();
    assert_eq!(a.arg, vec![2u8, 1, 2]);
    assert_eq!(a._vector_depth, 1);
    let b = ArgWithType::from_str("u64:1", &book).unwrap();
    assert_eq!(b.arg, vec![1u8, 0, 0, 0, 0, 0, 0, 0]);
    let c = ArgWithType::from_str("address:alice", &book).unwrap();
    assert_eq!(c.arg, addr(7).0.to_vec());
    let d = ArgWithType::from_str("bool:[true,false]", &book).unwrap();
    assert_eq!(d.arg, vec![2u8, 1, 0]);
    match ArgWithType::from_str("noseparator", &book) {
        Err(CliError::CommandArgumentError(m)) => {
            assert_eq!(m, "Arguments must be pairs of <type>:<arg> e.g. bool:true")
        },
        _ => panic!("expected an error"),
    }
    assert!(matches!(ArgWithType::from_str("u8:[1,", &book), Err(CliError::UnexpectedError(_))));
}

#[test]
fn args_convert_to_transaction_arguments() {
    let book = no_config();
    let a = ArgWithType::from_str("u8:5", &book).unwrap();
    assert!(matches!(a.try_into(), Ok(TransactionArgument::U8(5))));
    let b = ArgWithType::u64(42);
    assert!(matches!(b.try_into(), Ok(TransactionArgument::U64(42))));
    let c = ArgWithType::from_str("u8:[1,2]", &book).unwrap();
    match c.try_into() {
        Ok(TransactionArgument::U8Vector(v)) => assert_eq!(v, vec![1u8, 2]),
        _ => panic!("expected a byte vector"),
    }
    let d = ArgWithType::from_str("u16:[1]", &book).unwrap();
    assert!(d.try_into().is_err());
    let e = ArgWithType::address(addr(4));
    match e.try_into() {
        Ok(TransactionArgument::Address(x)) => assert_eq!(x.0, addr(4).0),
        _ => panic!("expected an address"),
    }
    let f = ArgWithType::raw(vec![1, 2, 3]);
    assert_eq!(f.arg, vec![1u8, 2, 3]);
    let g = ArgWithType::bytes(vec![1, 2, 3]);
    assert_eq!(g.arg, vec![3u8, 1, 2, 3]);
}

#[test]
fn member_ids() {
    let book = no_config();
    let m = parse_member_id("0x1::coin::transfer", &book).unwrap();
    assert_eq!(m.module_id.address.0, addr(1).0);
    assert_eq!(m.module_id.name, "coin");
    assert_eq!(m.member_id, "transfer");
    match parse_member_id("0x1::coin", &book) {
        Err(CliError::CommandArgumentError(msg)) => assert_eq!(
            msg,
            "FunctionId is not well formed.  Must be of the form <address>::<module>::<function>"
        ),
        _ => panic!("expected an error"),
    }
    match parse_member_id("0x1::1coin::transfer", &book) {
        Err(CliError::UnableToParse(l, msg)) => {
            assert_eq!(l, "Module Name");
            assert_eq!(msg, "Invalid identifier '1coin'");
        },
        _ => panic!("expected an error"),
    }
    match parse_member_id("0x1::coin::", &book) {
        Err(CliError::CommandArgumentError(_)) => {},
        _ => panic!("a trailing separator leaves two parts"),
    }
    assert!(parse_member_id("0x1::coin::transfer::", &book).is_ok());
}

#[test]
fn documented_argument_example() {
    // The example of the argument list's documentation:
    // `address:0x1 bool:true u8:0 u256:1234 "bool:[true, false]" 'address:[["0xace", "0xbee"], []]'`
    let book = no_config();
    assert_eq!(ArgWithType::from_str("address:0x1", &book).unwrap().arg, addr(1).0.to_vec());
    assert_eq!(ArgWithType::from_str("bool:true", &book).unwrap().arg, vec![1u8]);
    assert_eq!(ArgWithType::from_str("u8:0", &book).unwrap().arg, vec![0u8]);
    let mut n = vec![0u8; 32];
    n[0] = 0xd2;
    n[1] = 0x04;
    assert_eq!(ArgWithType::from_str("u256:1234", &book).unwrap().arg, n);
    let b = ArgWithType::from_str("bool:[true, false]", &book).unwrap();
    assert_eq!(b.arg, vec![2u8, 1, 0]);
    assert_eq!(b._vector_depth, 1);
    let nested = ArgWithType::from_str("address:[[\"0xace\", \"0xbee\"], []]", &book).unwrap();
    assert_eq!(nested._vector_depth, 2);
    let mut expected = vec![2u8, 2];
    let mut ace = [0u8; 32];
    ace[30] = 0x0a;
    ace[31] = 0xce;
    let mut bee = [0u8; 32];
    bee[30] = 0x0b;
    bee[31] = 0xee;
    expected.extend_from_slice(&ace);
    expected.extend_from_slice(&bee);
    expected.push(0);
    assert_eq!(nested.arg, expected);
}

#[test]
fn refused_scalars_say_why() {
    let book = no_config();
    match FunctionArgType::U8.parse_arg_str("256", &book) {
        Err(CliError::UnableToParse(l, m)) => {
            assert_eq!(l, "u8");
            assert_eq!(m, "number too large to fit in target type");
        },
        _ => panic!("expected an error"),
    }
    match FunctionArgType::U64.parse_arg_str("12x", &book) {
        Err(CliError::UnableToParse(_, m)) => assert_eq!(m, "invalid digit found in string"),
        _ => panic!("expected an error"),
    }
    match FunctionArgType::U16.parse_arg_str("99999a", &book) {
        Err(CliError::UnableToParse(_, m)) => assert_eq!(m, "number too large to fit in target type"),
        _ => panic!("expected an error"),
    }
    match FunctionArgType::Bool.parse_arg_str("yes", &book) {
        Err(CliError::UnableToParse(l, m)) => {
            assert_eq!(l, "bool");
            assert_eq!(m, "provided string was not `true` or `false`");
        },
        _ => panic!("expected an error"),
    }
    match FunctionArgType::from_str("U7") {
        Err(CliError::CommandArgumentError(m)) => assert_eq!(
            m,
            "Invalid arg type 'u7'.  Must be one of: ['address','bool','hex','string','u8','u16','u32','u64','u128','u256','raw']"
        ),
        _ => panic!("expected an error"),
    }
    match FunctionArgType::Address.parse_arg_str("nobody", &book) {
        Err(CliError::UnableToParse(l, m)) => {
            assert_eq!(l, "address");
            assert_eq!(m, "Unable to find config .movement/config.yaml, have you run `movement init`?");
        },
        _ => panic!("expected an error"),
    }
}

fn render(v: &JsonValue) -> String {
    match v {
        JsonValue::Null => "null".to_string(),
        JsonValue::Bool(b) => b.to_string(),
        JsonValue::Number(n) => n.clone(),
        JsonValue::String(s) => format!("\"{}\"", s),
        JsonValue::Array(items) => format!("[{}]", items.iter().map(render).collect::<Vec<_>>().join(",")),
        JsonValue::Object => "{}".to_string(),
    }
}

fn typed(ty: FunctionArgType, depth: u8, arg: Vec<u8>) -> ArgWithType {
    ArgWithType { _ty: ty, _vector_depth: depth, arg }
}

fn json_error(a: &ArgWithType) -> String {
    match a.to_json() {
        Err(CliError::UnexpectedError(m)) => m,
        _ => panic!("expected an error"),
    }
}

#[test]
fn arguments_render_as_json() {
    assert_eq!(render(&ArgWithType::u64(5).to_json().unwrap()), "5");
    assert_eq!(render(&typed(FunctionArgType::Bool, 0, vec![1]).to_json().unwrap()), "true");
    assert_eq!(render(&typed(FunctionArgType::U16, 1, vec![2, 1, 0, 2, 1]).to_json().unwrap()), "[1,258]");
    assert_eq!(render(&typed(FunctionArgType::Hex, 0, vec![2, 1, 255]).to_json().unwrap()), "[1,255]");
    assert_eq!(render(&typed(FunctionArgType::String, 0, vec![3, b'a', b'b', b'c']).to_json().unwrap()), "\"abc\"");
    assert_eq!(
        render(&typed(FunctionArgType::String, 1, vec![2, 1, b'x', 0]).to_json().unwrap()),
        "[\"x\",\"\"]"
    );
    let mut addr = vec![0u8; 32];
    addr[31] = 0xab;
    assert_eq!(
        render(&typed(FunctionArgType::Address, 0, addr).to_json().unwrap()),
        format!("\"{}ab\"", "0".repeat(62))
    );
    assert_eq!(render(&typed(FunctionArgType::Raw, 3, vec![9, 8]).to_json().unwrap()), "[9,8]");
    let mut small = vec![7u8];
    small.extend(vec![0u8; 15]);
    assert_eq!(render(&typed(FunctionArgType::U128, 0, small).to_json().unwrap()), "7");
}

#[test]
fn arguments_that_do_not_render() {
    let prefix = "Failed to parse argument to JSON Unexpected error: ";
    assert_eq!(
        json_error(&typed(FunctionArgType::U8, 8, vec![0])),
        format!("{}Vector of depth 8 is overly nested", prefix)
    );
    assert!(json_error(&typed(FunctionArgType::U128, 0, vec![0xff; 16])).starts_with(prefix));
    assert!(json_error(&typed(FunctionArgType::U64, 0, vec![1, 2, 3])).starts_with(prefix));
    assert!(json_error(&typed(FunctionArgType::U8, 0, vec![1, 2])).starts_with(prefix));
    assert!(json_error(&typed(FunctionArgType::Bool, 0, vec![2])).starts_with(prefix));
    assert!(json_error(&typed(FunctionArgType::String, 0, vec![1, 0xff])).starts_with(prefix));
    assert!(json_error(&typed(FunctionArgType::Hex, 0, vec![0x80, 0x00])).starts_with(prefix));
    match typed(FunctionArgType::U8, 9, vec![]).bcs_value_to_json() {
        Err(CliError::UnexpectedError(m)) => assert_eq!(m, "Vector of depth 9 is overly nested"),
        _ => panic!("expected an error"),
    }
}
