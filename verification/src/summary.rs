//! Short summaries of transactions, as the CLI prints them.

use vstd::prelude::*;
use crate::address::AccountAddress;

verus! {

/// What the ledger reports of an executed transaction.
pub struct TxnInfo {
    pub hash: [u8; 32],
    pub gas_used: u64,
    pub success: bool,
    pub version: u64,
    pub vm_status: String,
}

/// What the sender asked for in a user transaction.
pub struct TxnRequest {
    pub sender: AccountAddress,
    pub sequence_number: u64,
    pub gas_unit_price: u64,
}

/// A transaction as the REST API returns it, with the fields a summary
/// reads.
pub enum Transaction {
    PendingTransaction { hash: [u8; 32], request: TxnRequest },
    UserTransaction { info: TxnInfo, request: TxnRequest, timestamp: u64 },
    GenesisTransaction { info: TxnInfo },
    BlockMetadataTransaction { info: TxnInfo, timestamp: u64 },
    StateCheckpointTransaction { info: TxnInfo, timestamp: u64 },
}

/// A shortened transaction output.
pub struct TransactionSummary {
    pub transaction_hash: [u8; 32],
    pub gas_used: Option<u64>,
    pub gas_unit_price: Option<u64>,
    pub pending: Option<bool>,
    pub sender: Option<AccountAddress>,
    pub sequence_number: Option<u64>,
    pub success: Option<bool>,
    pub timestamp_us: Option<u64>,
    pub version: Option<u64>,
    pub vm_status: Option<String>,
}

/// The fields of a summary, with the texts taken by their characters.
pub struct SummaryView {
    pub transaction_hash: [u8; 32],
    pub gas_used: Option<u64>,
    pub gas_unit_price: Option<u64>,
    pub pending: Option<bool>,
    pub sender: Option<[u8; 32]>,
    pub sequence_number: Option<u64>,
    pub success: Option<bool>,
    pub timestamp_us: Option<u64>,
    pub version: Option<u64>,
    pub vm_status: Option<Seq<char>>,
}

impl TransactionSummary {
    /// The summary's fields, texts as characters and addresses as bytes.
    pub open spec fn view_of(self) -> SummaryView {
        SummaryView {
            transaction_hash: self.transaction_hash,
            gas_used: self.gas_used,
            gas_unit_price: self.gas_unit_price,
            pending: self.pending,
            sender: match self.sender {
                Some(a) => Some(a.0),
                None => None,
            },
            sequence_number: self.sequence_number,
            success: self.success,
            timestamp_us: self.timestamp_us,
            version: self.version,
            vm_status: match self.vm_status {
                Some(s) => Some(s@),
                None => None,
            },
        }
    }
}

/// The summary of `t`: what each kind of transaction has is kept, the rest
/// is left out.
pub open spec fn summary_of(t: Transaction) -> SummaryView {
    match t {
        Transaction::PendingTransaction { hash, request } => SummaryView {
            transaction_hash: hash,
            pending: Some(true),
            sender: Some(request.sender.0),
            sequence_number: Some(request.sequence_number),
            gas_used: None,
            gas_unit_price: None,
            success: None,
            version: None,
            vm_status: None,
            timestamp_us: None,
        },
        Transaction::UserTransaction { info, request, timestamp } => SummaryView {
            transaction_hash: info.hash,
            sender: Some(request.sender.0),
            gas_used: Some(info.gas_used),
            gas_unit_price: Some(request.gas_unit_price),
            success: Some(info.success),
            version: Some(info.version),
            vm_status: Some(info.vm_status@),
            sequence_number: Some(request.sequence_number),
            timestamp_us: Some(timestamp),
            pending: None,
        },
        Transaction::GenesisTransaction { info } => SummaryView {
            transaction_hash: info.hash,
            success: Some(info.success),
            version: Some(info.version),
            vm_status: Some(info.vm_status@),
            sender: None,
            gas_used: None,
            gas_unit_price: None,
            pending: None,
            sequence_number: None,
            timestamp_us: None,
        },
        Transaction::BlockMetadataTransaction { info, timestamp } => SummaryView {
            transaction_hash: info.hash,
            success: Some(info.success),
            version: Some(info.version),
            vm_status: Some(info.vm_status@),
            timestamp_us: Some(timestamp),
            sender: None,
            gas_used: None,
            gas_unit_price: None,
            pending: None,
            sequence_number: None,
        },
        Transaction::StateCheckpointTransaction { info, timestamp } => SummaryView {
            transaction_hash: info.hash,
            success: Some(info.success),
            version: Some(info.version),
            vm_status: Some(info.vm_status@),
            timestamp_us: Some(timestamp),
            sender: None,
            gas_used: None,
            gas_unit_price: None,
            pending: None,
            sequence_number: None,
        },
    }
}

fn copy_text(s: &String) -> (r: String)
    ensures
        r@ == s@,
{
    String::from_str(s.as_str())
}

impl TransactionSummary {
    /// Summarizes `transaction`.
    pub fn from(transaction: &Transaction) -> (r: TransactionSummary)
        ensures
            r.view_of() == summary_of(*transaction),
    {
        match transaction {
            Transaction::PendingTransaction { hash, request } => TransactionSummary {
                transaction_hash: *hash,
                pending: Some(true),
                sender: Some(AccountAddress(request.sender.0)),
                sequence_number: Some(request.sequence_number),
                gas_used: None,
                gas_unit_price: None,
                success: None,
                version: None,
                vm_status: None,
                timestamp_us: None,
            },
            Transaction::UserTransaction { info, request, timestamp } => TransactionSummary {
                transaction_hash: info.hash,
                sender: Some(AccountAddress(request.sender.0)),
                gas_used: Some(info.gas_used),
                gas_unit_price: Some(request.gas_unit_price),
                success: Some(info.success),
                version: Some(info.version),
                vm_status: Some(copy_text(&info.vm_status)),
                sequence_number: Some(request.sequence_number),
                timestamp_us: Some(*timestamp),
                pending: None,
            },
            Transaction::GenesisTransaction { info } => TransactionSummary {
                transaction_hash: info.hash,
                success: Some(info.success),
                version: Some(info.version),
                vm_status: Some(copy_text(&info.vm_status)),
                sender: None,
                gas_used: None,
                gas_unit_price: None,
                pending: None,
                sequence_number: None,
                timestamp_us: None,
            },
            Transaction::BlockMetadataTransaction { info, timestamp } => TransactionSummary {
                transaction_hash: info.hash,
                success: Some(info.success),
                version: Some(info.version),
                vm_status: Some(copy_text(&info.vm_status)),
                timestamp_us: Some(*timestamp),
                sender: None,
                gas_used: None,
                gas_unit_price: None,
                pending: None,
                sequence_number: None,
            },
            Transaction::StateCheckpointTransaction { info, timestamp } => TransactionSummary {
                transaction_hash: info.hash,
                success: Some(info.success),
                version: Some(info.version),
                vm_status: Some(copy_text(&info.vm_status)),
                timestamp_us: Some(*timestamp),
                sender: None,
                gas_used: None,
                gas_unit_price: None,
                pending: None,
                sequence_number: None,
            },
        }
    }
}

/// A pending transaction is the only kind summarized as pending, and only
/// committed transactions report success and a version.
pub proof fn lemma_pending_has_no_outcome(t: Transaction)
    ensures
        summary_of(t).pending is Some <==> t is PendingTransaction,
        summary_of(t).success is Some <==> !(t is PendingTransaction),
        summary_of(t).version is Some <==> !(t is PendingTransaction),
{
}

/// The ledger's record of a transaction that was executed; a pending one
/// has none.
pub open spec fn executed_info(t: Transaction) -> Option<TxnInfo> {
    match t {
        Transaction::PendingTransaction { .. } => None,
        Transaction::UserTransaction { info, .. } => Some(info),
        Transaction::GenesisTransaction { info } => Some(info),
        Transaction::BlockMetadataTransaction { info, .. } => Some(info),
        Transaction::StateCheckpointTransaction { info, .. } => Some(info),
    }
}

/// A summary reports what the ledger recorded: for an executed
/// transaction, its hash, its success flag (a failed transaction is never
/// reported as successful), its version and its VM status are the ledger's;
/// a user transaction's gas used and sender also come from it and its
/// request.
pub proof fn lemma_summary_reports_ledger(t: Transaction)
    ensures
        match executed_info(t) {
            Some(info) => {
                &&& summary_of(t).transaction_hash == info.hash
                &&& summary_of(t).success == Some(info.success)
                &&& summary_of(t).version == Some(info.version)
                &&& summary_of(t).vm_status == Some(info.vm_status@)
            },
            None => summary_of(t).success is None && summary_of(t).version is None,
        },
        t matches Transaction::UserTransaction { info, request, .. } ==> summary_of(t).gas_used == Some(
            info.gas_used,
        ) && summary_of(t).sender == Some(request.sender.0) && summary_of(t).sequence_number == Some(
            request.sequence_number,
        ) && summary_of(t).gas_unit_price == Some(request.gas_unit_price),
{
}

} // verus!
