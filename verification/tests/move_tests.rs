use movement::address::AccountAddress;
use movement::arg::{ArgWithType, TransactionArgument};
use movement::errors::CliError;
use movement::move_cmds::{
    check_dependable, check_package_size, clean_cache_question, extended_checks_outcome,
    join_texts, package_listing, package_size_line, resource_account_origin,
    resource_publish_question, saved_package_line, script_args, test_outcome,
    MAX_PUBLISH_PACKAGE_SIZE,
};

#[test]
fn package_size_limit() {
    assert!(check_package_size(MAX_PUBLISH_PACKAGE_SIZE, false).is_ok());
    assert!(check_package_size(MAX_PUBLISH_PACKAGE_SIZE + 1, true).is_ok());
    match check_package_size(70_000, false) {
        Err(CliError::UnexpectedError(m)) => assert_eq!(
            m,
            "The package is larger than 60000 bytes (70000 bytes)! To lower the size you may want to include less artifacts via `--included-artifacts`. You can also override this check with `--override-size-check"
        ),
        _ => panic!("expected an error"),
    }
    assert_eq!(package_size_line(1234), "package size 1234 bytes");
}

#[test]
fn resource_accounts() {
    let a = AccountAddress([3u8; 32]);
    assert_eq!(resource_account_origin(Ok(Some(Some(a)))).unwrap().0, [3u8; 32]);
    match resource_account_origin(Ok(Some(None))) {
        Err(CliError::CommandArgumentError(m)) => {
            assert_eq!(m, "Please provide an account using --profile or run movement init")
        },
        _ => panic!("expected an error"),
    }
    assert!(matches!(resource_account_origin(Err(CliError::AbortedError)), Err(CliError::AbortedError)));
    assert_eq!(
        resource_publish_question("0xab"),
        "Do you want to publish this package under the resource account's address 0xab?"
    );
}

#[test]
fn downloads_and_tests() {
    assert!(check_dependable(1).is_ok());
    assert!(matches!(check_dependable(0), Err(CliError::CommandArgumentError(_))));
    assert_eq!(saved_package_line(3, "pkg/Foo"), "Saved package with 3 module(s) to `pkg/Foo`");
    assert!(extended_checks_outcome(2, false).is_ok());
    assert!(extended_checks_outcome(0, true).is_ok());
    assert!(matches!(extended_checks_outcome(1, true), Err(CliError::MoveCompilationError(m)) if m == "extended checks failed"));
    assert_eq!(test_outcome(true).unwrap(), "Success");
    assert!(matches!(test_outcome(false), Err(CliError::MoveTestError)));
    assert_eq!(
        clean_cache_question("/home/u/.move"),
        "Do you also want to delete the local package download cache at `/home/u/.move`?"
    );
}

#[test]
fn script_arguments_convert_in_order() {
    let args = vec![ArgWithType::u64(7), ArgWithType::raw(vec![1, 9])];
    let out = script_args(args).unwrap();
    assert!(matches!(out[0], TransactionArgument::U64(7)));
    match &out[1] {
        TransactionArgument::U8Vector(v) => assert_eq!(v, &vec![9u8]),
        _ => panic!("expected bytes"),
    }
    let bad = vec![ArgWithType::u64(1), ArgWithType::raw(vec![5])];
    assert!(script_args(bad).is_err());
}

#[test]
fn package_listing_lines() {
    let modules = vec!["a".to_string(), "b".to_string(), "c".to_string()];
    assert_eq!(join_texts(&modules, ", "), "a, b, c");
    assert_eq!(join_texts(&vec![], ", "), "");
    let lines = package_listing("Pkg", "compatible", 2, "ABC", &modules);
    assert_eq!(
        lines,
        vec![
            "package Pkg".to_string(),
            "  upgrade_policy: compatible".to_string(),
            "  upgrade_number: 2".to_string(),
            "  source_digest: ABC".to_string(),
            "  modules: a, b, c".to_string(),
        ]
    );
}

#[test]
fn error_messages() {
    assert_eq!(CliError::AbortedError.to_message(), "Aborted command");
    assert_eq!(
        CliError::ConfigNotFoundError("x".to_string()).to_message(),
        "Unable to find config x, have you run `movement init`?"
    );
    assert_eq!(CliError::UnableToParse("u8", "bad".to_string()).to_message(), "Unable to parse 'u8': error: bad");
    assert_eq!(CliError::CommandArgumentError("m".to_string()).to_message(), "Invalid arguments: m");
    let io = CliError::IO("f".to_string(), std::io::Error::new(std::io::ErrorKind::Other, "boom"));
    assert_eq!(io.to_message(), "Error accessing 'f': boom");
}

#[test]
fn deep_u8_vectors_are_refused_with_their_depth() {
    let mut a = ArgWithType::raw(vec![0]);
    a._ty = movement::arg::FunctionArgType::U8;
    a._vector_depth = 3;
    match a.try_into() {
        Err(CliError::UnexpectedError(m)) => {
            assert_eq!(m, "Unable to parse u8 vector of depth 3 to transaction argument")
        },
        _ => panic!("expected an error"),
    }
}
