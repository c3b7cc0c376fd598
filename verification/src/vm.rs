//! The decisions of the subnet VM: its bootstrapping state, when a block is
//! asked of the consensus engine, which submitted transactions are gossiped,
//! how blocks are checked and assembled, and the plain RPC messages.
//! Consensus, the mempool, the VM's execution of transactions and the
//! network are driven by the caller with what these functions decide.

use vstd::prelude::*;
use crate::executor::{
    block_at, has_block, same_id, spec_execute_block, spec_prune, tree_wf, BlockTree,
    ExecutorError,
};

verus! {

/// The kinds of I/O error the VM reports.
#[derive(PartialEq, Eq, Structural, Clone, Copy, Debug)]
pub enum VmErrorKind {
    Other,
    Interrupted,
    NotFound,
    Unsupported,
}

/// An error the VM reports to the consensus engine.
#[derive(Debug)]
pub struct VmError {
    pub kind: VmErrorKind,
    pub message: &'static str,
}

/// The states the consensus engine puts the VM in.
#[derive(PartialEq, Eq, Structural, Clone, Copy, Debug)]
pub enum SnowState {
    Initializing,
    StateSyncing,
    Bootstrapping,
    NormalOp,
}

/// The all-zero id, which stands for no block.
pub open spec fn is_zero_id(id: [u8; 32]) -> bool {
    forall|i: int| 0 <= i < 32 ==> id[i] == 0
}

/// The VM's own state: the preferred block and whether bootstrapping is
/// over.
pub struct VmState {
    /// Currently preferred block id.
    pub preferred: [u8; 32],
    /// Set when the VM has finished bootstrapping the chain.
    pub bootstrapped: bool,
}

/// The state after the engine asked for `s`.
pub open spec fn after_set_state(st: VmState, s: SnowState) -> VmState {
    match s {
        SnowState::StateSyncing => st,
        SnowState::NormalOp => VmState { bootstrapped: true, ..st },
        _ => VmState { bootstrapped: false, ..st },
    }
}

impl VmState {
    /// A VM that has not bootstrapped and prefers the empty id.
    pub fn default() -> (r: VmState)
        ensures
            is_zero_id(r.preferred),
            !r.bootstrapped,
    {
        VmState { preferred: [0u8; 32], bootstrapped: false }
    }

    /// Whether bootstrapping is over.
    pub fn is_bootstrapped(&self) -> (r: bool)
        ensures
            r == self.bootstrapped,
    {
        self.bootstrapped
    }

    /// Moves the VM to the engine's state `s`. State syncing is not
    /// supported and leaves the VM as it was.
    pub fn set_state(&mut self, s: SnowState) -> (r: Result<(), VmError>)
        ensures
            *final(self) == after_set_state(*old(self), s),
            r is Ok <==> s != SnowState::StateSyncing,
            r matches Err(e) ==> e.kind == VmErrorKind::Other && e.message@
                == "state sync is not supported"@,
    {
        match s {
            SnowState::Initializing => {
                self.bootstrapped = false;
                Ok(())
            },
            SnowState::StateSyncing => Err(
                VmError { kind: VmErrorKind::Other, message: "state sync is not supported" },
            ),
            SnowState::Bootstrapping => {
                self.bootstrapped = false;
                Ok(())
            },
            SnowState::NormalOp => {
                self.bootstrapped = true;
                Ok(())
            },
        }
    }

    /// Makes `id` the preferred block.
    pub fn set_preference(&mut self, id: [u8; 32])
        ensures
            final(self).preferred == id,
            final(self).bootstrapped == old(self).bootstrapped,
    {
        self.preferred = id;
    }
}

/// Whatever state the engine asks for, asking for it again changes
/// nothing, and the preferred block is never touched.
pub proof fn lemma_set_state_idempotent(st: VmState, s: SnowState)
    ensures
        after_set_state(after_set_state(st, s), s) == after_set_state(st, s),
        after_set_state(st, s).preferred == st.preferred,
{
}

/// After the engine asked for a state the VM accepts, the VM is
/// bootstrapped exactly when that state is normal operation.
pub proof fn lemma_bootstrapped_iff_normal_op(st: VmState, s: SnowState)
    requires
        s != SnowState::StateSyncing,
    ensures
        after_set_state(st, s).bootstrapped <==> s == SnowState::NormalOp,
{
}

/// The block the VM prefers once it is initialized: the last accepted block
/// where there is one, else the genesis block it has just accepted.
pub fn initial_preference(last_accepted: Option<[u8; 32]>, genesis_id: [u8; 32]) -> (r: [u8; 32])
    ensures
        r == match last_accepted {
            Some(id) => id,
            None => genesis_id,
        },
{
    match last_accepted {
        Some(id) => id,
        None => genesis_id,
    }
}

/// What `notify_block_ready` does.
#[derive(PartialEq, Eq, Structural, Clone, Copy, Debug)]
pub enum NotifyAction {
    /// A block is being built already: nothing is sent.
    Skip,
    /// There is no channel to the engine: nothing is sent.
    NoEngine,
    /// The engine is told that transactions are pending.
    Send,
}

/// What is done about pending transactions, given whether a block is being
/// built and whether the engine can be reached.
pub open spec fn notify_action_of(building: bool, has_engine: bool) -> NotifyAction {
    if building {
        NotifyAction::Skip
    } else if !has_engine {
        NotifyAction::NoEngine
    } else {
        NotifyAction::Send
    }
}

/// Whether a block is being built, shared by the block builder and the
/// pending-transaction watcher.
pub struct BuildGate {
    pub building: bool,
}

impl BuildGate {
    /// A gate with no block being built.
    pub fn new() -> (r: BuildGate)
        ensures
            !r.building,
    {
        BuildGate { building: false }
    }

    /// Decides whether the engine is to be told that transactions are
    /// pending.
    pub fn notify_action(&self, has_engine: bool) -> (r: NotifyAction)
        ensures
            r == notify_action_of(self.building, has_engine),
    {
        if self.building {
            NotifyAction::Skip
        } else if !has_engine {
            NotifyAction::NoEngine
        } else {
            NotifyAction::Send
        }
    }

    /// Records the outcome of telling the engine: once the message went
    /// out, a block is being built.
    pub fn after_send(&mut self, sent: bool)
        ensures
            final(self).building == (old(self).building || sent),
    {
        if sent {
            self.building = true;
        }
    }

    /// A block was built and committed: the next one may start.
    pub fn finish_block(&mut self)
        ensures
            !final(self).building,
    {
        self.building = false;
    }

    /// The watcher found the wait for a pending block too long: building
    /// is allowed again.
    pub fn mark_idle(&mut self)
        ensures
            !final(self).building,
    {
        self.building = false;
    }
}

/// While a block is being built the engine is not told again; once it is
/// finished, pending transactions are announced again.
pub proof fn lemma_one_notification_per_block(has_engine: bool)
    ensures
        notify_action_of(true, has_engine) == NotifyAction::Skip,
        notify_action_of(false, true) == NotifyAction::Send,
{
}

/// Milliseconds between two looks at the pending transactions.
pub const CHECK_INTERVAL_MS: u64 = 500;

/// Milliseconds after which a silent wait lets block building start again.
pub const CHECK_TIMEOUT_MS: u64 = 2000;

/// What the pending-transaction watcher does on one tick.
#[derive(PartialEq, Eq, Structural, Clone, Copy, Debug)]
pub enum TickAction {
    /// A block is being built: the timer starts again.
    Restarted,
    /// Nothing happened for too long: building is allowed again and the
    /// wait starts over.
    MarkIdle,
    /// The mempool is to be asked for a pending transaction.
    LookForPending,
}

/// One tick of the watcher that last saw progress at `last`, at time `now`:
/// what it does and when it last saw progress afterwards. While a block is
/// being built the timer starts again; after a silent wait longer than
/// `timeout` building is allowed again and the wait starts over; otherwise
/// the mempool is asked for a pending transaction.
pub open spec fn spec_tick(last: u64, building: bool, now: u64, timeout: u64) -> (TickAction, u64) {
    if building {
        (TickAction::Restarted, now)
    } else if now - last > timeout {
        (TickAction::MarkIdle, now)
    } else {
        (TickAction::LookForPending, last)
    }
}

/// While no block is being built, the mempool keeps being asked: of two
/// ticks in a row no further apart than the timeout, at least one looks for
/// pending transactions, and a tick within the timeout after the wait
/// started over always does.
pub proof fn lemma_idle_watch_keeps_looking(last: u64, t1: u64, t2: u64, timeout: u64)
    requires
        last <= t1 <= t2,
        t2 - t1 <= timeout,
    ensures
        spec_tick(last, false, t1, timeout).0 == TickAction::LookForPending || spec_tick(
            spec_tick(last, false, t1, timeout).1,
            false,
            t2,
            timeout,
        ).0 == TickAction::LookForPending,
        spec_tick(last, false, t1, timeout).0 == TickAction::MarkIdle ==> spec_tick(
            spec_tick(last, false, t1, timeout).1,
            false,
            t2,
            timeout,
        ).0 == TickAction::LookForPending,
{
}

/// The watcher's clock: when it last saw progress.
pub struct PendingWatch {
    pub last_check_ms: u64,
}

impl PendingWatch {
    /// A watcher that saw progress at `now_ms`.
    pub fn new(now_ms: u64) -> (r: PendingWatch)
        ensures
            r.last_check_ms == now_ms,
    {
        PendingWatch { last_check_ms: now_ms }
    }

    /// One tick of the watcher at time `now_ms`.
    pub fn tick(&mut self, building: bool, now_ms: u64, timeout_ms: u64) -> (r: TickAction)
        requires
            old(self).last_check_ms <= now_ms,
        ensures
            (r, final(self).last_check_ms) == spec_tick(
                old(self).last_check_ms,
                building,
                now_ms,
                timeout_ms,
            ),
    {
        if building {
            self.last_check_ms = now_ms;
            TickAction::Restarted
        } else if now_ms - self.last_check_ms > timeout_ms {
            self.last_check_ms = now_ms;
            TickAction::MarkIdle
        } else {
            TickAction::LookForPending
        }
    }

    /// What the mempool answered: with a pending transaction the engine is
    /// notified and the timer starts again.
    pub fn pending_seen(&mut self, found: bool, now_ms: u64) -> (notify: bool)
        ensures
            notify == found,
            found ==> final(self).last_check_ms == now_ms,
            !found ==> final(self).last_check_ms == old(self).last_check_ms,
    {
        if found {
            self.last_check_ms = now_ms;
        }
        found
    }
}

/// `xs` holds `x`.
pub open spec fn holds(xs: Seq<usize>, x: usize) -> bool {
    exists|k: int| 0 <= k < xs.len() && xs[k] == x
}

/// Which transactions of a submitted batch are gossiped and whether the
/// engine is told: those the node accepted go out, and the engine is told
/// when some were refused.
pub struct GossipPlan {
    pub gossip: Vec<usize>,
    pub notify: bool,
}

/// Plans the gossip for a batch of `n` transactions of which the node
/// refused those at the indices in `failed`.
pub fn gossip_plan(n: usize, failed: &Vec<usize>) -> (r: GossipPlan)
    ensures
        forall|a: int, b: int|
            0 <= a < b < r.gossip@.len() ==> r.gossip@[a] < r.gossip@[b],
        forall|k: int|
            0 <= k < r.gossip@.len() ==> r.gossip@[k] < n && !holds(failed@, r.gossip@[k]),
        forall|i: usize|
            i < n && !holds(failed@, i) ==> exists|k: int|
                0 <= k < r.gossip@.len() && r.gossip@[k] == i,
        r.notify <==> exists|i: usize| i < n && holds(failed@, i),
{
    let mut gossip: Vec<usize> = Vec::new();
    let mut refused: usize = 0;
    let mut i: usize = 0;
    while i < n
        invariant
            i <= n,
            refused <= i,
            forall|a: int, b: int| 0 <= a < b < gossip@.len() ==> gossip@[a] < gossip@[b],
            forall|k: int| 0 <= k < gossip@.len() ==> gossip@[k] < i && !holds(failed@, gossip@[k]),
            forall|j: usize|
                j < i && !holds(failed@, j) ==> exists|k: int|
                    0 <= k < gossip@.len() && gossip@[k] == j,
            (refused > 0) <==> exists|j: usize| j < i && holds(failed@, j),
        decreases n - i,
    {
        let mut hit = false;
        let mut k: usize = 0;
        while k < failed.len()
            invariant
                k <= failed@.len(),
                hit <==> exists|m: int| 0 <= m < k && failed@[m] == i,
            decreases failed@.len() - k,
        {
            if failed[k] == i {
                hit = true;
            }
            k = k + 1;
        }
        proof {
            if hit {
                let m = choose|m: int| 0 <= m < k && failed@[m] == i;
                assert(holds(failed@, i));
            } else {
                assert(!holds(failed@, i));
            }
            assert((exists|j: usize| j < i + 1 && holds(failed@, j)) <==> (exists|j: usize|
                j < i && holds(failed@, j)) || holds(failed@, i)) by {
                if exists|j: usize| j < i + 1 && holds(failed@, j) {
                    let j = choose|j: usize| j < i + 1 && holds(failed@, j);
                    if j < i {
                        assert(exists|j2: usize| j2 < i && holds(failed@, j2));
                    }
                }
                if exists|j: usize| j < i && holds(failed@, j) {
                    let j = choose|j: usize| j < i && holds(failed@, j);
                    assert(j < i + 1 && holds(failed@, j));
                }
                if holds(failed@, i) {
                    assert(i < i + 1 && holds(failed@, i));
                }
            }
        }
        if hit {
            refused = refused + 1;
        } else {
            let ghost before = gossip@;
            gossip.push(i);
            proof {
                assert forall|j: usize|
                    j < i + 1 && !holds(failed@, j) implies exists|k: int|
                        0 <= k < gossip@.len() && gossip@[k] == j by {
                    if j < i {
                        let k0 = choose|k0: int| 0 <= k0 < before.len() && before[k0] == j;
                        assert(gossip@[k0] == j);
                    } else {
                        assert(gossip@[before.len() as int] == j);
                    }
                }
            }
        }
        i = i + 1;
    }
    assert forall|j: usize| j < n && !holds(failed@, j) implies exists|k: int|
        0 <= k < gossip@.len() && gossip@[k] == j by {
        assert(j < i);
    }
    GossipPlan { gossip, notify: refused > 0 }
}

/// Checks a block handed to `inner_build_block`: the id in its metadata
/// transaction must be the block id, and its parent must be the block the
/// executor committed last.
pub fn check_block_ids(
    meta_block_id: &[u8; 32],
    block_id: &[u8; 32],
    parent_block_id: &[u8; 32],
    committed_block_id: &[u8; 32],
) -> (r: Result<(), VmError>)
    ensures
        r matches Err(e) ==> e.kind == VmErrorKind::Interrupted && e.message@ == (if *meta_block_id
            != *block_id {
            "block format error"@
        } else {
            "block error,maybe not sync "@
        }),
        r is Ok <==> *meta_block_id == *block_id && *parent_block_id == *committed_block_id,
{
    if !same_id(meta_block_id, block_id) {
        return Err(VmError { kind: VmErrorKind::Interrupted, message: "block format error" });
    }
    if !same_id(parent_block_id, committed_block_id) {
        return Err(
            VmError { kind: VmErrorKind::Interrupted, message: "block error,maybe not sync " },
        );
    }
    Ok(())
}

/// A transaction of a block, as far as the mempool cares.
pub enum BlockTxn {
    /// A user transaction, by sender and sequence number.
    User { sender: [u8; 32], sequence_number: u64 },
    /// Block metadata, state checkpoints and the like.
    System,
}

/// The (sender, sequence number) pairs of the user transactions of `txns`,
/// in block order.
pub open spec fn user_commits(txns: Seq<BlockTxn>) -> Seq<([u8; 32], u64)>
    decreases txns.len(),
{
    if txns.len() == 0 {
        Seq::empty()
    } else {
        let rest = user_commits(txns.drop_last());
        match txns.last() {
            BlockTxn::User { sender, sequence_number } => rest.push((sender, sequence_number)),
            BlockTxn::System => rest,
        }
    }
}

/// The transactions the mempool is to forget once a block is committed.
pub fn mempool_commits(txns: &Vec<BlockTxn>) -> (r: Vec<([u8; 32], u64)>)
    ensures
        r@ == user_commits(txns@),
{
    let mut out: Vec<([u8; 32], u64)> = Vec::new();
    let mut i: usize = 0;
    while i < txns.len()
        invariant
            i <= txns@.len(),
            out@ == user_commits(txns@.take(i as int)),
        decreases txns@.len() - i,
    {
        proof {
            assert(txns@.take(i + 1).drop_last() =~= txns@.take(i as int));
        }
        match &txns[i] {
            BlockTxn::User { sender, sequence_number } => {
                out.push((*sender, *sequence_number));
            },
            BlockTxn::System => {},
        }
        i = i + 1;
    }
    proof {
        assert(txns@.take(txns@.len() as int) =~= txns@);
    }
    out
}

/// What `inner_build_block` answers: the signed ledger info for the node
/// that built the block, nothing for the others.
pub fn build_reply(is_miner: bool, ledger_info: Vec<u8>) -> (r: Vec<u8>)
    ensures
        r@ == (if is_miner {
            ledger_info@
        } else {
            Seq::empty()
        }),
{
    if is_miner {
        ledger_info
    } else {
        Vec::new()
    }
}

/// The transactions of a new block: its metadata, the pending transactions
/// in mempool order, and a closing state checkpoint.
pub fn assemble_block<T>(meta: T, pending: Vec<T>, checkpoint: T) -> (r: Vec<T>)
    ensures
        r@ == seq![meta] + pending@ + seq![checkpoint],
{
    let mut out: Vec<T> = Vec::new();
    out.push(meta);
    let mut rest = pending;
    let ghost p = rest@;
    out.append(&mut rest);
    out.push(checkpoint);
    proof {
        assert(out@ =~= seq![meta] + p + seq![checkpoint]);
    }
    out
}

/// The transactions of a block given its user transactions: a state
/// checkpoint is added at the end.
pub fn block<T>(user_txns: Vec<T>, checkpoint: T) -> (r: Vec<T>)
    ensures
        r@ == user_txns@.push(checkpoint),
{
    let mut txns = user_txns;
    txns.push(checkpoint);
    txns
}

/// The id of the `index`-th block of the demonstration chain: every byte is
/// `index`.
pub fn gen_block_id(index: u8) -> (r: [u8; 32])
    ensures
        forall|i: int| 0 <= i < 32 ==> r[i] == index,
{
    [index; 32]
}

/// The data a block carries: its transactions, its id, its parent's id,
/// the epoch, the timestamp and the ledger info that commits it.
pub struct AptosData(
    pub Vec<u8>,
    pub [u8; 32],
    pub [u8; 32],
    pub u64,
    pub u64,
    pub Vec<u8>,
);

impl AptosData {
    /// The data of the genesis block.
    pub fn genesis() -> (r: AptosData)
        ensures
            r.0@ == "hello world"@.map_values(|c: char| c as u8),
            is_zero_id(r.1),
            is_zero_id(r.2),
            r.3 == 0,
            r.4 == 0,
            r.5@.len() == 0,
    {
        let text: Vec<u8> = vec![104u8, 101, 108, 108, 111, 32, 119, 111, 114, 108, 100];
        proof {
            reveal_strlit("hello world");
            assert(text@ =~= "hello world"@.map_values(|c: char| c as u8));
        }
        AptosData(text, [0u8; 32], [0u8; 32], 0, 0, Vec::new())
    }
}

/// The ledger state that each API answer carries.
pub struct AptosHeader {
    pub chain_id: u8,
    pub ledger_version: u64,
    pub ledger_oldest_version: u64,
    pub ledger_timestamp_usec: u64,
    pub epoch: u64,
    pub block_height: u64,
    pub oldest_block_height: u64,
    pub cursor: Option<String>,
}

/// The body of an API answer as the API produced it.
pub enum ResponseContent {
    /// JSON text.
    Json(String),
    /// BCS bytes.
    Bcs(Vec<u8>),
}

/// An answer of the RPC service: the body and the header, each as text.
pub struct RpcRes {
    pub data: String,
    pub header: String,
}

/// The text an API body is answered with: JSON as it is, BCS bytes in
/// lower-case hex.
pub open spec fn response_text(c: ResponseContent) -> Seq<char> {
    match c {
        ResponseContent::Json(s) => s@,
        ResponseContent::Bcs(b) => crate::hex_codec::spec_hex_encode(b@),
    }
}

/// Builds an RPC answer from an API body and the header's JSON text.
pub fn rpc_response(content: ResponseContent, header_json: String) -> (r: RpcRes)
    ensures
        r.data@ == response_text(content),
        r.header@ == header_json@,
{
    let data = match content {
        ResponseContent::Json(s) => s,
        ResponseContent::Bcs(b) => crate::hex_codec::hex_encode(b.as_slice()),
    };
    RpcRes { data, header: header_json }
}

/// Arguments of `viewFunction`.
pub struct ViewFunctionArgs {
    pub data: String,
}

/// Arguments of `submitTransaction`: the BCS payload as hex.
pub struct SubmitTransactionArgs {
    pub data: String,
}

/// Answer of `submitTransaction`.
pub struct SubmitTransactionRes {
    pub data: String,
}

/// Arguments of `getBlock`.
pub struct GetBlockArgs {
    pub id: String,
}

/// Arguments of `GetBlockByHeight`.
pub struct GetBlockByHeightArgs {
    pub height: u64,
    pub with_transactions: Option<bool>,
}

/// Answer of the transaction queries.
pub struct GetTransactionRes {
    pub data: String,
}

/// Arguments naming an account.
pub struct AccountArgs {
    pub account: String,
}

/// Arguments naming an account and one of its resources.
pub struct AccountStateArgs {
    pub account: String,
    pub resource: String,
}

/// An answer holding a number.
pub struct AccountNumberRes {
    pub data: u64,
}

/// An answer holding text.
pub struct AccountStrRes {
    pub data: String,
}

impl SubmitTransactionArgs {
    /// The payload bytes the hex text stands for.
    pub fn payload(&self) -> (r: Result<Vec<u8>, hex::FromHexError>)
        ensures
            r matches Ok(b) ==> crate::hex_codec::spec_hex_decode(self.data@) == Some(b@),
            r is Ok <==> crate::hex_codec::spec_hex_decode(self.data@) is Some,
    {
        crate::hex_codec::hex_decode(self.data.as_str())
    }
}

/// `getBlock`'s answer: the block and its data read as text.
pub struct GetBlockResponse<B> {
    pub block: B,
    pub data: String,
}

/// What `String::from_utf8_lossy` makes of `bytes`.
pub uninterp spec fn spec_utf8_lossy(bytes: Seq<u8>) -> Seq<char>;

/// Bytes below 0x80.
pub open spec fn all_ascii_bytes(b: Seq<u8>) -> bool {
    forall|i: int| 0 <= i < b.len() ==> b[i] < 0x80
}

/// Calls `String::from_utf8_lossy` and takes the text. Claimed: the result
/// is the named function of the bytes; ASCII bytes come back as the same
/// characters, one for one (std documents that ASCII is valid UTF-8 and
/// that valid UTF-8 is returned unchanged).
#[verifier::external_body]
fn utf8_lossy(bytes: &[u8]) -> (r: String)
    ensures
        r@ == spec_utf8_lossy(bytes@),
        all_ascii_bytes(bytes@) ==> r@ == bytes@.map_values(|b: u8| b as char),
{
    String::from_utf8_lossy(bytes).to_string()
}

impl<B> GetBlockResponse<B> {
    /// The answer for `block`, whose data is `block_data`.
    pub fn new(block: B, block_data: &[u8]) -> (r: GetBlockResponse<B>)
        ensures
            r.block == block,
            r.data@ == spec_utf8_lossy(block_data@),
    {
        GetBlockResponse { block, data: utf8_lossy(block_data) }
    }
}

/// The directory of the chain data of node `node_id` under `home`.
pub open spec fn spec_db_path(home: Seq<char>, node_id: Seq<u8>) -> Seq<char> {
    home + "/"@ + "aptos-chain-data"@ + "/"@ + crate::hex_codec::spec_hex_encode(node_id)
}

/// Where the VM keeps the chain data of node `node_id`.
pub fn db_path(home: &str, node_id: &[u8]) -> (r: String)
    ensures
        r@ == spec_db_path(home@, node_id@),
{
    let a = crate::text::concat_text(home, "/");
    let b = crate::text::concat_text(a.as_str(), "aptos-chain-data");
    let c = crate::text::concat_text(b.as_str(), "/");
    let h = crate::hex_codec::hex_encode(node_id);
    crate::text::concat_text(c.as_str(), h.as_str())
}


/// The error of the operations that need the state manager before
/// `initialize` set it up.
pub fn state_manager_missing() -> (e: VmError)
    ensures
        e.kind == VmErrorKind::NotFound,
        e.message@ == "state manager not found"@,
{
    VmError { kind: VmErrorKind::NotFound, message: "state manager not found" }
}

/// The block `parse_block` answers with: the block already known under
/// the parsed block's id, else the parsed block itself; without a state
/// manager, an error.
pub fn parsed_block<B>(has_state: bool, known: Option<B>, parsed: B) -> (r: Result<B, VmError>)
    ensures
        !has_state ==> (r matches Err(e) && e.kind == VmErrorKind::NotFound && e.message@
            == "state manager not found"@),
        has_state ==> r == Ok::<B, VmError>(
            match known {
                Some(b) => b,
                None => parsed,
            },
        ),
{
    if !has_state {
        return Err(state_manager_missing());
    }
    match known {
        Some(b) => Ok(b),
        None => Ok(parsed),
    }
}

/// The operations the VM does not implement.
#[derive(PartialEq, Eq, Structural, Clone, Copy, Debug)]
pub enum UnsupportedOp {
    GetAncestors,
    BatchedParseBlock,
    IssueTx,
}

/// The error an unsupported operation answers with.
pub fn unsupported(op: UnsupportedOp) -> (e: VmError)
    ensures
        e.kind == VmErrorKind::Unsupported,
        e.message@ == match op {
            UnsupportedOp::GetAncestors => "get_ancestors not implemented"@,
            UnsupportedOp::BatchedParseBlock => "batched_parse_block not implemented"@,
            UnsupportedOp::IssueTx => "issue_tx not implemented"@,
        },
{
    match op {
        UnsupportedOp::GetAncestors => VmError {
            kind: VmErrorKind::Unsupported,
            message: "get_ancestors not implemented",
        },
        UnsupportedOp::BatchedParseBlock => VmError {
            kind: VmErrorKind::Unsupported,
            message: "batched_parse_block not implemented",
        },
        UnsupportedOp::IssueTx => VmError {
            kind: VmErrorKind::Unsupported,
            message: "issue_tx not implemented",
        },
    }
}

/// The answer of the health check: the text `200`.
pub fn health_check() -> (r: Vec<u8>)
    ensures
        r@ == seq![50u8, 48u8, 48u8],
{
    vec![50u8, 48u8, 48u8]
}

/// The Octas the test faucet mints to an account.
pub const FAUCET_OCTAS: u64 = 10 * 100_000_000;

/// The height of a block built on a parent at `parent_height`.
pub fn child_height(parent_height: u64) -> (r: u64)
    requires
        parent_height < u64::MAX,
    ensures
        r == parent_height + 1,
{
    parent_height + 1
}

/// What executing and committing a block leaves behind: the block's
/// output, the (sender, sequence number) pairs the mempool commits, and the
/// reply (the ledger info bytes for the miner, nothing otherwise).
pub struct BuildOutcome<O> {
    pub output: O,
    pub mempool_commits: Vec<([u8; 32], u64)>,
    pub reply: Vec<u8>,
}

/// The executor's side of a block: the block's ids are checked against the
/// executor's committed block, the block is executed on it (with `fresh`,
/// the output made for it, when it is new) and committed, so that it
/// becomes the committed block; its user transactions are committed in the
/// mempool, and the miner replies with the ledger info. A block already in
/// the tree must hang under the given parent, as the executor requires.
pub fn inner_build_block<O: Copy>(
    tree: &mut BlockTree<O>,
    meta_block_id: [u8; 32],
    block_id: [u8; 32],
    parent_block_id: [u8; 32],
    txns: &Vec<BlockTxn>,
    fresh_output: O,
    fresh_reconfig: bool,
    is_miner: bool,
    ledger_info: Vec<u8>,
) -> (r: Result<BuildOutcome<O>, VmError>)
    requires
        tree_wf(old(tree).blocks@),
        has_block(old(tree).blocks@, block_id) ==> old(tree).blocks@[block_at(
            old(tree).blocks@,
            block_id,
        )].parent == parent_block_id,
    ensures
        r is Ok <==> meta_block_id == block_id && parent_block_id == old(tree).blocks@[0].id,
        r matches Err(e) ==> e.kind == VmErrorKind::Interrupted && final(tree).blocks@ == old(
            tree,
        ).blocks@,
        r matches Ok(o) ==> {
            let (res, executed) = spec_execute_block(
                old(tree).blocks@,
                block_id,
                parent_block_id,
                (fresh_output, fresh_reconfig),
            );
            &&& res == Ok::<O, ExecutorError>(o.output)
            &&& final(tree).blocks@ == spec_prune(executed, block_id)
            &&& final(tree).blocks@[0].id == block_id
            &&& tree_wf(final(tree).blocks@)
            &&& o.mempool_commits@ == user_commits(txns@)
            &&& o.reply@ == (if is_miner {
                ledger_info@
            } else {
                Seq::empty()
            })
        },
{
    let root = tree.blocks[0].id;
    match check_block_ids(&meta_block_id, &block_id, &parent_block_id, &root) {
        Err(e) => {
            return Err(e);
        },
        Ok(()) => {},
    }
    let ghost before = tree.blocks@;
    let executed = tree.execute_block(block_id, parent_block_id, fresh_output, fresh_reconfig);
    let output = match executed {
        Ok(o) => o,
        Err(_) => {
            proof {
                let ip = block_at(before, parent_block_id);
                assert(before[0].id == parent_block_id);
                assert(has_block(before, parent_block_id));
            }
            return Err(VmError { kind: VmErrorKind::Interrupted, message: "block error,maybe not sync " });
        },
    };
    proof {
        assert(has_block(tree.blocks@, block_id)) by {
            if has_block(before, block_id) {
                let ib = block_at(before, block_id);
                assert(tree.blocks@ == before);
                assert(tree.blocks@[ib].id == block_id);
            } else {
                let n = before.len() as int;
                assert(tree.blocks@[n].id == block_id);
            }
        }
    }
    tree.commit(block_id);
    let commits = mempool_commits(txns);
    let reply = build_reply(is_miner, ledger_info);
    Ok(BuildOutcome { output, mempool_commits: commits, reply })
}

/// A block built by this node: its parent, height, time and data, and the
/// mempool commits building it made.
pub struct BuiltBlock {
    pub parent_id: [u8; 32],
    pub height: u64,
    pub timestamp: u64,
    pub data: AptosData,
    pub mempool_commits: Vec<([u8; 32], u64)>,
}

/// Builds a block on the preferred block (`preferred_id` at
/// `preferred_height`) at time `now`: its data carries the block's
/// serialized transactions, its new id, the executor's committed block as
/// its parent, the epoch, the time and the ledger info the build returned
/// as miner; the block is executed and committed on the way, so that it
/// becomes the executor's committed block.
pub fn build_block<O: Copy>(
    tree: &mut BlockTree<O>,
    preferred_id: [u8; 32],
    preferred_height: u64,
    now: u64,
    next_epoch: u64,
    block_id: [u8; 32],
    txns: &Vec<BlockTxn>,
    txn_bytes: Vec<u8>,
    fresh_output: O,
    fresh_reconfig: bool,
    ledger_info: Vec<u8>,
) -> (r: BuiltBlock)
    requires
        tree_wf(old(tree).blocks@),
        preferred_height < u64::MAX,
        has_block(old(tree).blocks@, block_id) ==> old(tree).blocks@[block_at(
            old(tree).blocks@,
            block_id,
        )].parent == old(tree).blocks@[0].id,
    ensures
        r.parent_id == preferred_id,
        r.height == preferred_height + 1,
        r.timestamp == now,
        r.data.0@ == txn_bytes@,
        r.data.1 == block_id,
        r.data.2 == old(tree).blocks@[0].id,
        r.data.3 == next_epoch,
        r.data.4 == now,
        r.data.5@ == ledger_info@,
        r.mempool_commits@ == user_commits(txns@),
        final(tree).blocks@ == spec_prune(
            spec_execute_block(
                old(tree).blocks@,
                block_id,
                old(tree).blocks@[0].id,
                (fresh_output, fresh_reconfig),
            ).1,
            block_id,
        ),
        final(tree).blocks@[0].id == block_id,
        tree_wf(final(tree).blocks@),
{
    let parent_block_id = tree.blocks[0].id;
    let built = inner_build_block(
        tree,
        block_id,
        block_id,
        parent_block_id,
        txns,
        fresh_output,
        fresh_reconfig,
        true,
        ledger_info,
    );
    match built {
        Ok(o) => BuiltBlock {
            parent_id: preferred_id,
            height: child_height(preferred_height),
            timestamp: now,
            data: AptosData(txn_bytes, block_id, parent_block_id, next_epoch, now, o.reply),
            mempool_commits: o.mempool_commits,
        },
        Err(_) => {
            proof {
                assert(false);
            }
            BuiltBlock {
                parent_id: preferred_id,
                height: child_height(preferred_height),
                timestamp: now,
                data: AptosData(txn_bytes, block_id, parent_block_id, next_epoch, now, Vec::new()),
                mempool_commits: Vec::new(),
            }
        },
    }
}

} // verus!
