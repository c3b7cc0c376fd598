//! The decisions of submitting a transaction and of profiling its gas:
//! which gas price and maximum are used, when the user is asked to confirm
//! a cost and with which words, when the local clock is too far behind the
//! chain, and what the gas profiler's files and summary are called and
//! hold. The REST calls, the signing and the prompts are the caller's.

use vstd::prelude::*;
use crate::address::AccountAddress;
use crate::decimal::{decimal_text, u64_to_decimal};
use crate::errors::CliError;
use crate::hex_codec::{hex_encode, spec_hex_encode};
use crate::summary::TransactionSummary;
use crate::text::concat_text;

verus! {

/// Microseconds in a second.
pub const US_IN_SECS: u64 = 1_000_000;

/// How far, in microseconds, the local clock may lag behind the chain.
pub const ACCEPTED_CLOCK_SKEW_US: u64 = 5 * US_IN_SECS;

/// The gas unit price the profiler uses when none is given.
pub const DEFAULT_GAS_UNIT_PRICE: u64 = 100;

/// The largest gas amount the profiler uses when none is given.
pub const DEFAULT_MAX_GAS: u64 = 2_000_000;

/// The gas unit price of a submission and whether the user is asked to
/// confirm the cost: a price the user gave is used as it is, and no
/// estimate is needed for it; without one, the node's estimate is used and
/// is to be confirmed. `estimate` is that estimate when the node was asked
/// for one; `None` comes back when no price was given and no estimate is
/// at hand yet, so that the caller asks the node.
pub fn submission_price(given: Option<u64>, estimate: Option<u64>) -> (r: Option<(u64, bool)>)
    ensures
        r == (match (given, estimate) {
            (Some(p), _) => Some((p, false)),
            (None, Some(e)) => Some((e, true)),
            (None, None) => None,
        }),
{
    match given {
        Some(p) => Some((p, false)),
        None => match estimate {
            Some(e) => Some((e, true)),
            None => None,
        },
    }
}

/// The local clock, at `now_secs`, is more than the accepted skew behind
/// the chain's clock at `chain_timestamp_us`.
pub open spec fn spec_clock_behind(now_secs: u64, chain_timestamp_us: u64) -> bool {
    now_secs * US_IN_SECS < chain_timestamp_us - ACCEPTED_CLOCK_SKEW_US
}

/// Whether the local clock is too far behind the chain.
pub fn clock_behind(now_secs: u64, chain_timestamp_us: u64) -> (r: bool)
    requires
        now_secs * US_IN_SECS <= u64::MAX,
        chain_timestamp_us >= ACCEPTED_CLOCK_SKEW_US,
    ensures
        r == spec_clock_behind(now_secs, chain_timestamp_us),
{
    now_secs * US_IN_SECS < chain_timestamp_us - ACCEPTED_CLOCK_SKEW_US
}

/// The warning printed when the local clock lags behind the chain.
pub open spec fn clock_warning_text(chain_timestamp_us: u64) -> Seq<char> {
    "Local clock is is skewed from blockchain clock.  Clock is more than "@ + decimal_text(
        ACCEPTED_CLOCK_SKEW_US as nat,
    ) + " seconds behind the blockchain "@ + decimal_text((chain_timestamp_us / US_IN_SECS) as nat)
}

/// The warning printed when the local clock lags behind the chain.
pub fn clock_warning(chain_timestamp_us: u64) -> (r: String)
    ensures
        r@ == clock_warning_text(chain_timestamp_us),
{
    let a = concat_text(
        "Local clock is is skewed from blockchain clock.  Clock is more than ",
        u64_to_decimal(ACCEPTED_CLOCK_SKEW_US).as_str(),
    );
    let b = concat_text(a.as_str(), " seconds behind the blockchain ");
    concat_text(b.as_str(), u64_to_decimal(chain_timestamp_us / US_IN_SECS).as_str())
}

/// When a submitted transaction expires.
pub fn expiration_time(now_secs: u64, expiration_secs: u64) -> (r: u64)
    requires
        now_secs + expiration_secs <= u64::MAX,
    ensures
        r == now_secs + expiration_secs,
{
    now_secs + expiration_secs
}

/// The question asked when the user gave the maximum gas but the price was
/// estimated.
pub open spec fn max_cost_question_text(max_gas: u64, gas_unit_price: u64) -> Seq<char> {
    "Do you want to submit transaction for a maximum of "@ + decimal_text(
        (max_gas * gas_unit_price) as nat,
    ) + " Octas at a gas unit price of "@ + decimal_text(gas_unit_price as nat) + " Octas?"@
}

/// The question asked when the user gave the maximum gas but the price was
/// estimated.
pub fn max_cost_question(max_gas: u64, gas_unit_price: u64) -> (r: String)
    requires
        max_gas * gas_unit_price <= u64::MAX,
    ensures
        r@ == max_cost_question_text(max_gas, gas_unit_price),
{
    let a = concat_text(
        "Do you want to submit transaction for a maximum of ",
        u64_to_decimal(max_gas * gas_unit_price).as_str(),
    );
    let b = concat_text(a.as_str(), " Octas at a gas unit price of ");
    let c = concat_text(b.as_str(), u64_to_decimal(gas_unit_price).as_str());
    concat_text(c.as_str(), " Octas?")
}

/// The question asked of the cost range found by simulating the
/// transaction.
pub open spec fn cost_range_question_text(lower: nat, upper: nat, gas_unit_price: u64) -> Seq<
    char,
> {
    "Do you want to submit a transaction for a range of ["@ + decimal_text(lower) + " - "@
        + decimal_text(upper) + "] Octas at a gas unit price of "@ + decimal_text(
        gas_unit_price as nat,
    ) + " Octas?"@
}

/// What a simulation settles when the user gave no maximum gas: a failed
/// simulation stops the submission with its VM status; otherwise the
/// maximum is the gas used with headroom (`adjusted_max_gas`, as the
/// headroom rule computed it), and the user is asked about the range from
/// the gas used to that maximum.
pub fn simulated_max_gas(
    success: bool,
    vm_status: String,
    gas_used: u64,
    adjusted_max_gas: u64,
    gas_unit_price: u64,
) -> (r: Result<(u64, String), CliError>)
    requires
        success ==> adjusted_max_gas * gas_unit_price <= u64::MAX,
        success ==> gas_used * gas_unit_price <= u64::MAX,
    ensures
        r is Ok <==> success,
        r matches Err(e) ==> e matches CliError::SimulationError(m) && m@ == vm_status@,
        r matches Ok(p) ==> p.0 == adjusted_max_gas && p.1@ == cost_range_question_text(
            (gas_used * gas_unit_price) as nat,
            (adjusted_max_gas * gas_unit_price) as nat,
            gas_unit_price,
        ),
{
    if !success {
        return Err(CliError::SimulationError(vm_status));
    }
    let upper = adjusted_max_gas * gas_unit_price;
    let lower = gas_used * gas_unit_price;
    let a = concat_text(
        "Do you want to submit a transaction for a range of [",
        u64_to_decimal(lower).as_str(),
    );
    let b = concat_text(a.as_str(), " - ");
    let c = concat_text(b.as_str(), u64_to_decimal(upper).as_str());
    let d = concat_text(c.as_str(), "] Octas at a gas unit price of ");
    let e = concat_text(d.as_str(), u64_to_decimal(gas_unit_price).as_str());
    Ok((adjusted_max_gas, concat_text(e.as_str(), " Octas?")))
}

/// The gas unit price the profiler simulates with.
pub fn profile_gas_unit_price(given: Option<u64>) -> (r: u64)
    ensures
        r == match given {
            Some(p) => p,
            None => DEFAULT_GAS_UNIT_PRICE,
        },
{
    match given {
        Some(p) => p,
        None => DEFAULT_GAS_UNIT_PRICE,
    }
}

/// The maximum gas the profiler simulates with: the one given, else as
/// much as the balance pays at the price, capped at the default maximum
/// (the default maximum itself at a price of zero).
pub open spec fn spec_profile_max_gas(given: Option<u64>, gas_unit_price: u64, balance: u64) -> u64 {
    match given {
        Some(m) => m,
        None => if gas_unit_price == 0 {
            DEFAULT_MAX_GAS
        } else if balance / gas_unit_price < DEFAULT_MAX_GAS {
            balance / gas_unit_price
        } else {
            DEFAULT_MAX_GAS
        },
    }
}

/// The maximum gas the profiler simulates with.
pub fn profile_max_gas(given: Option<u64>, gas_unit_price: u64, balance: u64) -> (r: u64)
    ensures
        r == spec_profile_max_gas(given, gas_unit_price, balance),
{
    match given {
        Some(m) => m,
        None => {
            if gas_unit_price == 0 {
                DEFAULT_MAX_GAS
            } else {
                let affordable = balance / gas_unit_price;
                if affordable < DEFAULT_MAX_GAS {
                    affordable
                } else {
                    DEFAULT_MAX_GAS
                }
            }
        },
    }
}

/// Without a maximum given, the profiler never plans more gas than the
/// balance pays for at a non-zero price, nor more than the default maximum.
pub proof fn lemma_profile_max_gas_affordable(gas_unit_price: u64, balance: u64)
    ensures
        spec_profile_max_gas(None, gas_unit_price, balance) <= DEFAULT_MAX_GAS,
        gas_unit_price > 0 ==> spec_profile_max_gas(None, gas_unit_price, balance)
            * gas_unit_price <= balance,
{
    if gas_unit_price > 0 {
        let q = balance / gas_unit_price;
        assert(q * gas_unit_price <= balance) by (nonlinear_arith)
            requires
                gas_unit_price > 0,
                q == balance / gas_unit_price,
        ;
        let m = spec_profile_max_gas(None, gas_unit_price, balance);
        assert(m <= q);
        assert(m * gas_unit_price <= q * gas_unit_price) by (nonlinear_arith)
            requires
                m <= q,
                gas_unit_price > 0,
        ;
    }
}

/// The number of leading `'0'` characters of `s`.
pub open spec fn leading_zeros(s: Seq<char>) -> nat
    decreases s.len(),
{
    if s.len() > 0 && s[0] == '0' {
        1 + leading_zeros(s.drop_first())
    } else {
        0
    }
}

/// The shortest hex text of an address: its hex digits without leading
/// zeros, or `0` when all of them are zero.
pub open spec fn short_hex(a: Seq<u8>) -> Seq<char> {
    let h = spec_hex_encode(a);
    let k = leading_zeros(h);
    if k >= h.len() {
        "0"@
    } else {
        h.subrange(k as int, h.len() as int)
    }
}

proof fn lemma_leading_zeros(s: Seq<char>, i: int)
    requires
        0 <= i <= s.len(),
        forall|j: int| 0 <= j < i ==> s[j] == '0',
        i == s.len() || s[i] != '0',
    ensures
        leading_zeros(s) == i,
    decreases i,
{
    if i > 0 {
        let t = s.drop_first();
        assert forall|j: int| 0 <= j < i - 1 implies t[j] == '0' by {
            assert(t[j] == s[j + 1]);
        }
        if i - 1 < t.len() {
            assert(t[i - 1] == s[i]);
        }
        lemma_leading_zeros(t, i - 1);
    }
}

/// The shortest hex text of an address.
pub fn short_str_lossless(a: &AccountAddress) -> (r: String)
    ensures
        r@ == short_hex(a.0@),
{
    let h = hex_encode(&a.0);
    let hs = h.as_str();
    let n = hs.unicode_len();
    let mut k: usize = 0;
    while k < n && hs.get_char(k) == '0'
        invariant
            n == hs@.len(),
            k <= n,
            forall|j: int| 0 <= j < k ==> hs@[j] == '0',
        decreases n - k,
    {
        k = k + 1;
    }
    proof {
        lemma_leading_zeros(hs@, k as int);
        reveal_strlit("0");
    }
    if k >= n {
        String::from_str("0")
    } else {
        String::from_str(hs.substring_char(k, n))
    }
}

/// The entry point of a profiled transaction.
pub enum EntryPoint {
    Script,
    Function { address: AccountAddress, module: String, name: String },
}

/// At most the first four characters of `s`.
pub open spec fn first_four(s: Seq<char>) -> Seq<char> {
    if s.len() > 4 {
        s.subrange(0, 4)
    } else {
        s
    }
}

/// The readable name of the entry point in the flamegraphs' file names.
pub open spec fn entry_point_text(e: EntryPoint) -> Seq<char> {
    match e {
        EntryPoint::Script => "script"@,
        EntryPoint::Function { address, module, name } => "0x"@ + first_four(short_hex(address.0@))
            + "-"@ + module@ + "-"@ + name@,
    }
}

/// The readable name of the entry point.
pub fn entry_point_name(e: &EntryPoint) -> (r: String)
    ensures
        r@ == entry_point_text(*e),
{
    match e {
        EntryPoint::Script => String::from_str("script"),
        EntryPoint::Function { address, module, name } => {
            let short = short_str_lossless(address);
            let s = short.as_str();
            let n = s.unicode_len();
            let cut = if n > 4 {
                s.substring_char(0, 4)
            } else {
                s
            };
            let a = concat_text("0x", cut);
            let b = concat_text(a.as_str(), "-");
            let c = concat_text(b.as_str(), module.as_str());
            let d = concat_text(c.as_str(), "-");
            concat_text(d.as_str(), name.as_str())
        },
    }
}

/// The file-name stem of a profiled transaction's flamegraphs.
pub open spec fn profile_file_stem_text(hash: [u8; 32], entry: Seq<char>) -> Seq<char> {
    "txn-"@ + spec_hex_encode(hash@) + "-"@ + entry
}

/// The file-name stem of a profiled transaction's flamegraphs.
pub fn profile_file_stem(hash: &[u8; 32], entry: &str) -> (r: String)
    ensures
        r@ == profile_file_stem_text(*hash, entry@),
{
    let a = concat_text("txn-", hex_encode(hash).as_str());
    let b = concat_text(a.as_str(), "-");
    concat_text(b.as_str(), entry)
}

/// The two flamegraphs the profiler writes.
#[derive(PartialEq, Eq, Structural, Clone, Copy, Debug)]
pub enum Flamegraph {
    ExecutionAndIo,
    StorageFee,
}

/// Where a flamegraph is written.
pub open spec fn flamegraph_path_text(stem: Seq<char>, g: Flamegraph) -> Seq<char> {
    "gas-profiling/"@ + stem + match g {
        Flamegraph::ExecutionAndIo => ".exec_io.svg"@,
        Flamegraph::StorageFee => ".storage.svg"@,
    }
}

/// Where a flamegraph is written.
pub fn flamegraph_path(stem: &str, g: Flamegraph) -> (r: String)
    ensures
        r@ == flamegraph_path_text(stem@, g),
{
    let a = concat_text("gas-profiling/", stem);
    match g {
        Flamegraph::ExecutionAndIo => concat_text(a.as_str(), ".exec_io.svg"),
        Flamegraph::StorageFee => concat_text(a.as_str(), ".storage.svg"),
    }
}

/// The status the profiled transaction came out with.
pub enum ProfiledStatus {
    /// Kept, successful or not.
    Keep(bool),
    Discard,
    Retry,
}

/// The summary of a profiled transaction: it is not committed, so it has
/// no new sequence number, no timestamp, and the version it was simulated
/// at.
pub fn profile_summary(
    hash: [u8; 32],
    gas_used: u64,
    gas_unit_price: u64,
    sender: AccountAddress,
    version: u64,
    vm_status: String,
    status: ProfiledStatus,
) -> (r: TransactionSummary)
    ensures
        r.transaction_hash == hash,
        r.gas_used == Some(gas_used),
        r.gas_unit_price == Some(gas_unit_price),
        r.pending is None,
        r.sender == Some(sender),
        r.sequence_number is None,
        r.success == (match status {
            ProfiledStatus::Keep(s) => Some(s),
            _ => None,
        }),
        r.timestamp_us is None,
        r.version == Some(version),
        r.vm_status matches Some(v) && v@ == vm_status@,
{
    let success = match status {
        ProfiledStatus::Keep(s) => Some(s),
        _ => None,
    };
    TransactionSummary {
        transaction_hash: hash,
        gas_used: Some(gas_used),
        gas_unit_price: Some(gas_unit_price),
        pending: None,
        sender: Some(sender),
        sequence_number: None,
        success,
        timestamp_us: None,
        version: Some(version),
        vm_status: Some(vm_status),
    }
}

} // verus!
