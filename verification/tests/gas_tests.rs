use movement::address::AccountAddress;
use movement::errors::CliError;
use movement::gas::{
    clock_behind, clock_warning, entry_point_name, expiration_time, flamegraph_path,
    max_cost_question, profile_file_stem, profile_gas_unit_price, profile_max_gas,
    profile_summary, short_str_lossless, simulated_max_gas, submission_price, EntryPoint,
    Flamegraph, ProfiledStatus, DEFAULT_MAX_GAS,
};
use movement::summary::{Transaction, TransactionSummary, TxnInfo, TxnRequest};

fn addr(last: u8) -> AccountAddress {
    let mut a = [0u8; 32];
    a[31] = last;
    AccountAddress(a)
}

#[test]
fn gas_price_choice() {
    assert_eq!(submission_price(Some(150), Some(100)), Some((150, false)));
    assert_eq!(submission_price(Some(150), None), Some((150, false)));
    assert_eq!(submission_price(None, Some(100)), Some((100, true)));
    assert_eq!(submission_price(None, None), None);
    assert_eq!(profile_gas_unit_price(None), 100);
    assert_eq!(profile_gas_unit_price(Some(7)), 7);
}

#[test]
fn profiler_max_gas() {
    assert_eq!(profile_max_gas(Some(5), 100, 0), 5);
    assert_eq!(profile_max_gas(None, 0, 10), DEFAULT_MAX_GAS);
    assert_eq!(profile_max_gas(None, 100, 1_000), 10);
    assert_eq!(profile_max_gas(None, 1, u64::MAX), DEFAULT_MAX_GAS);
}

#[test]
fn clock_skew() {
    assert!(clock_behind(10, 16_000_000));
    assert!(!clock_behind(11, 16_000_000));
    assert!(!clock_behind(10, 15_000_000));
    assert_eq!(
        clock_warning(16_000_000),
        "Local clock is is skewed from blockchain clock.  Clock is more than 5000000 seconds behind the blockchain 16"
    );
    assert_eq!(expiration_time(100, 30), 130);
}

#[test]
fn cost_questions() {
    assert_eq!(
        max_cost_question(1000, 100),
        "Do you want to submit transaction for a maximum of 100000 Octas at a gas unit price of 100 Octas?"
    );
    let (max, q) = simulated_max_gas(true, "Executed".to_string(), 10, 15, 100).unwrap();
    assert_eq!(max, 15);
    assert_eq!(q, "Do you want to submit a transaction for a range of [1000 - 1500] Octas at a gas unit price of 100 Octas?");
    match simulated_max_gas(false, "MOVE_ABORT".to_string(), 10, 15, 100) {
        Err(CliError::SimulationError(m)) => assert_eq!(m, "MOVE_ABORT"),
        _ => panic!("expected a simulation error"),
    }
}

#[test]
fn flamegraph_names() {
    assert_eq!(short_str_lossless(&addr(1)), "1");
    assert_eq!(short_str_lossless(&AccountAddress([0u8; 32])), "0");
    let mut a = [0u8; 32];
    a[0] = 0x0a;
    assert_eq!(short_str_lossless(&AccountAddress(a)), format!("a{}", "0".repeat(62)));
    assert_eq!(entry_point_name(&EntryPoint::Script), "script");
    let f = EntryPoint::Function { address: addr(1), module: "coin".to_string(), name: "transfer".to_string() };
    assert_eq!(entry_point_name(&f), "0x1-coin-transfer");
    let g = EntryPoint::Function { address: AccountAddress(a), module: "m".to_string(), name: "f".to_string() };
    assert_eq!(entry_point_name(&g), "0xa000-m-f");
    let stem = profile_file_stem(&[0u8; 32], "script");
    assert_eq!(stem, format!("txn-{}-script", "0".repeat(64)));
    assert_eq!(flamegraph_path("s", Flamegraph::ExecutionAndIo), "gas-profiling/s.exec_io.svg");
    assert_eq!(flamegraph_path("s", Flamegraph::StorageFee), "gas-profiling/s.storage.svg");
}

#[test]
fn profiled_summary() {
    let s = profile_summary([1u8; 32], 5, 100, addr(3), 42, "Executed".to_string(), ProfiledStatus::Keep(true));
    assert_eq!(s.gas_used, Some(5));
    assert_eq!(s.success, Some(true));
    assert_eq!(s.version, Some(42));
    assert_eq!(s.sequence_number, None);
    assert_eq!(s.vm_status.as_deref(), Some("Executed"));
    let d = profile_summary([1u8; 32], 5, 100, addr(3), 42, "x".to_string(), ProfiledStatus::Discard);
    assert_eq!(d.success, None);
}

fn info() -> TxnInfo {
    TxnInfo { hash: [9u8; 32], gas_used: 12, success: true, version: 77, vm_status: "Executed successfully".to_string() }
}

#[test]
fn transaction_summaries() {
    let pending = Transaction::PendingTransaction {
        hash: [1u8; 32],
        request: TxnRequest { sender: addr(2), sequence_number: 3, gas_unit_price: 100 },
    };
    let s = TransactionSummary::from(&pending);
    assert_eq!(s.transaction_hash, [1u8; 32]);
    assert_eq!(s.pending, Some(true));
    assert_eq!(s.sequence_number, Some(3));
    assert_eq!(s.gas_unit_price, None);
    assert_eq!(s.success, None);
    let user = Transaction::UserTransaction {
        info: info(),
        request: TxnRequest { sender: addr(2), sequence_number: 3, gas_unit_price: 100 },
        timestamp: 55,
    };
    let s = TransactionSummary::from(&user);
    assert_eq!(s.gas_used, Some(12));
    assert_eq!(s.gas_unit_price, Some(100));
    assert_eq!(s.timestamp_us, Some(55));
    assert_eq!(s.pending, None);
    assert_eq!(s.vm_status.as_deref(), Some("Executed successfully"));
    let genesis = Transaction::GenesisTransaction { info: info() };
    let s = TransactionSummary::from(&genesis);
    assert_eq!(s.version, Some(77));
    assert!(s.sender.is_none());
    assert_eq!(s.timestamp_us, None);
    let meta = Transaction::BlockMetadataTransaction { info: info(), timestamp: 8 };
    assert_eq!(TransactionSummary::from(&meta).timestamp_us, Some(8));
    let cp = Transaction::StateCheckpointTransaction { info: info(), timestamp: 9 };
    assert_eq!(TransactionSummary::from(&cp).success, Some(true));
}
