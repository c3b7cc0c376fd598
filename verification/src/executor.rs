//! The decisions the block executor makes around executing and committing
//! blocks: which way a block is executed, the tree of executed blocks that
//! answers a retry with the first output, when a commit is a retry, and
//! whether the transactions to commit reach the ledger's target version.
//! The VM and the database are driven by the caller.

use vstd::prelude::*;

verus! {

/// Why the executor refused a block or a commit.
#[derive(Debug)]
pub enum ExecutorError {
    /// The parent block is not in the block tree.
    BlockNotFound([u8; 32]),
    /// The block is known, but not as a child of the given parent.
    NotAChild { parent: [u8; 32], child: [u8; 32] },
    /// A commit was asked for no block at all.
    CommitNothing,
    /// The transactions to commit do not end at the target version.
    BadNumTxnsToCommit { first_version: u64, to_commit: usize, target_version: u64 },
}

/// Compares two 32-byte ids.
pub fn same_id(a: &[u8; 32], b: &[u8; 32]) -> (r: bool)
    ensures
        r == (*a == *b),
{
    let mut i: usize = 0;
    while i < 32
        invariant
            i <= 32,
            forall|j: int| 0 <= j < i ==> a[j] == b[j],
        decreases 32 - i,
    {
        if a[i] != b[i] {
            return false;
        }
        i = i + 1;
    }
    proof {
        assert(*a =~= *b);
    }
    true
}

/// How a block is brought to an output.
#[derive(PartialEq, Eq, Structural, Debug)]
pub enum ExecutePlan {
    /// The block was executed before: its output is returned again.
    Retry,
    /// The parent carries a reconfiguration that is not committed yet:
    /// the block gets the parent's reconfiguration suffix, without running
    /// its transactions.
    ReconfigSuffix,
    /// The transactions are run by the VM on the parent's state.
    Execute,
}

/// What the block tree knows of a block and its parent when the block is
/// to be executed.
pub struct TreeLookup {
    /// The parent block is in the tree.
    pub parent_found: bool,
    /// The block itself is in the tree already.
    pub block_found: bool,
    /// The parent lists the block among its children.
    pub parent_has_child: bool,
    /// The parent's output ends an epoch.
    pub parent_has_reconfiguration: bool,
}

/// The plan for executing `block_id` on top of `parent_block_id`.
pub open spec fn spec_execute_plan(
    block_id: [u8; 32],
    parent_block_id: [u8; 32],
    committed_block_id: [u8; 32],
    tree: TreeLookup,
) -> Result<ExecutePlan, ExecutorError> {
    if !tree.parent_found {
        Err(ExecutorError::BlockNotFound(parent_block_id))
    } else if tree.block_found {
        if tree.parent_has_child {
            Ok(ExecutePlan::Retry)
        } else {
            Err(ExecutorError::NotAChild { parent: parent_block_id, child: block_id })
        }
    } else if parent_block_id != committed_block_id && tree.parent_has_reconfiguration {
        Ok(ExecutePlan::ReconfigSuffix)
    } else {
        Ok(ExecutePlan::Execute)
    }
}

/// Decides how a block is executed: a block already in the tree is a retry
/// (and must hang under the given parent), a block under an uncommitted
/// reconfiguration only inherits it, any other block is run by the VM.
pub fn plan_execute_block(
    block_id: [u8; 32],
    parent_block_id: [u8; 32],
    committed_block_id: [u8; 32],
    tree: &TreeLookup,
) -> (r: Result<ExecutePlan, ExecutorError>)
    ensures
        r == spec_execute_plan(
            block_id,
            parent_block_id,
            committed_block_id,
            *tree,
        ),
{
    if !tree.parent_found {
        return Err(ExecutorError::BlockNotFound(parent_block_id));
    }
    if tree.block_found {
        if tree.parent_has_child {
            return Ok(ExecutePlan::Retry);
        }
        return Err(ExecutorError::NotAChild { parent: parent_block_id, child: block_id });
    }
    if !same_id(&parent_block_id, &committed_block_id) && tree.parent_has_reconfiguration {
        Ok(ExecutePlan::ReconfigSuffix)
    } else {
        Ok(ExecutePlan::Execute)
    }
}

/// A block of the block tree: its id, its parent's id, its output and
/// whether that output ends an epoch.
pub struct TreeBlock<O> {
    pub id: [u8; 32],
    pub parent: [u8; 32],
    pub output: O,
    pub reconfig: bool,
}

/// The blocks executed on top of the committed block, the committed block
/// first.
pub struct BlockTree<O> {
    pub blocks: Vec<TreeBlock<O>>,
}

/// The tree holds a block with id `id`.
pub open spec fn has_block<O>(bs: Seq<TreeBlock<O>>, id: [u8; 32]) -> bool {
    exists|i: int| 0 <= i < bs.len() && (#[trigger] bs[i]).id == id
}

/// The index of the block with id `id`.
pub open spec fn block_at<O>(bs: Seq<TreeBlock<O>>, id: [u8; 32]) -> int {
    choose|i: int| 0 <= i < bs.len() && (#[trigger] bs[i]).id == id
}

/// The tree is well formed: it holds the committed block, no two blocks
/// share an id, and every block but the committed one comes after its
/// parent.
pub open spec fn tree_wf<O>(bs: Seq<TreeBlock<O>>) -> bool {
    &&& bs.len() > 0
    &&& forall|i: int, j: int|
        0 <= i < bs.len() && 0 <= j < bs.len() && #[trigger] bs[i].id == #[trigger] bs[j].id ==> i
            == j
    &&& forall|i: int| 0 < i < bs.len() ==> parent_before(bs, i)
}

/// The parent of the block at `i` is in the tree before it.
pub open spec fn parent_before<O>(bs: Seq<TreeBlock<O>>, i: int) -> bool {
    exists|j: int| 0 <= j < i && (#[trigger] bs[j]).id == bs[i].parent
}

/// The tree once block `b` is committed: `b` and the blocks that descend
/// from it, in their order; the rest is pruned.
pub open spec fn spec_prune<O>(bs: Seq<TreeBlock<O>>, b: [u8; 32]) -> Seq<TreeBlock<O>>
    decreases bs.len(),
{
    if bs.len() == 0 {
        Seq::empty()
    } else {
        let pre = spec_prune(bs.drop_last(), b);
        let x = bs.last();
        if x.id == b || has_block(pre, x.parent) {
            pre.push(x)
        } else {
            pre
        }
    }
}

/// What pruning keeps: blocks of the tree, each one `b` or a child of a
/// block kept before it; and `b` itself when the tree holds it.
proof fn lemma_prune<O>(bs: Seq<TreeBlock<O>>, b: [u8; 32])
    ensures
        forall|k: int|
            0 <= k < spec_prune(bs, b).len() ==> exists|j: int|
                0 <= j < bs.len() && bs[j] == #[trigger] spec_prune(bs, b)[k],
        forall|k: int|
            0 <= k < spec_prune(bs, b).len() ==> (#[trigger] spec_prune(bs, b)[k]).id == b
                || parent_before(spec_prune(bs, b), k),
        has_block(bs, b) ==> has_block(spec_prune(bs, b), b),
    decreases bs.len(),
{
    if bs.len() > 0 {
        let init = bs.drop_last();
        lemma_prune(init, b);
        let pre = spec_prune(init, b);
        let p = spec_prune(bs, b);
        let x = bs.last();
        assert forall|k: int| 0 <= k < p.len() implies exists|j: int|
            0 <= j < bs.len() && bs[j] == #[trigger] p[k] by {
            if k < pre.len() {
                let j = choose|j: int| 0 <= j < init.len() && init[j] == pre[k];
                assert(bs[j] == p[k]);
            } else {
                assert(bs[bs.len() - 1] == p[k]);
            }
        }
        assert forall|k: int| 0 <= k < p.len() implies (#[trigger] p[k]).id == b || parent_before(
            p,
            k,
        ) by {
            if k < pre.len() {
                assert(p[k] == pre[k]);
                if pre[k].id != b {
                    assert(parent_before(pre, k));
                    let j = choose|j: int| 0 <= j < k && (#[trigger] pre[j]).id == pre[k].parent;
                    assert(p[j] == pre[j]);
                }
            } else if x.id != b {
                let j = choose|j: int| 0 <= j < pre.len() && (#[trigger] pre[j]).id == x.parent;
                assert(p[j] == pre[j]);
            }
        }
        if has_block(bs, b) {
            if has_block(init, b) {
                let j = choose|j: int| 0 <= j < pre.len() && (#[trigger] pre[j]).id == b;
                assert(p[j] == pre[j]);
            } else {
                let j = choose|j: int| 0 <= j < bs.len() && (#[trigger] bs[j]).id == b;
                if j < init.len() {
                    assert(init[j].id == b);
                }
                assert(x.id == b);
                assert(p[p.len() - 1] == x);
            }
        }
    }
}

/// Pruning the first `n + 1` blocks: the block at `n` is added when it is
/// `b` or its parent was kept among the first `n`.
proof fn lemma_prune_step<O>(bs: Seq<TreeBlock<O>>, b: [u8; 32], n: int)
    requires
        0 <= n < bs.len(),
    ensures
        spec_prune(bs.take(n + 1), b) == (if bs[n].id == b || has_block(
            spec_prune(bs.take(n), b),
            bs[n].parent,
        ) {
            spec_prune(bs.take(n), b).push(bs[n])
        } else {
            spec_prune(bs.take(n), b)
        }),
{
    assert(bs.take(n + 1).drop_last() =~= bs.take(n));
    assert(bs.take(n + 1).last() == bs[n]);
}

/// What pruning the first `m` blocks keeps stays kept with more blocks.
proof fn lemma_prune_grows<O>(bs: Seq<TreeBlock<O>>, b: [u8; 32], m: int, n: int, id: [u8; 32])
    requires
        0 <= m <= n <= bs.len(),
        has_block(spec_prune(bs.take(m), b), id),
    ensures
        has_block(spec_prune(bs.take(n), b), id),
    decreases n - m,
{
    if m < n {
        lemma_prune_grows(bs, b, m, n - 1, id);
        lemma_prune_step(bs, b, n - 1);
        let p = spec_prune(bs.take(n - 1), b);
        let k = choose|k: int| 0 <= k < p.len() && (#[trigger] p[k]).id == id;
        let q = spec_prune(bs.take(n), b);
        if q != p {
            assert(q[k] == p[k]);
        }
    }
}

/// In a tree of distinct ids, the block at `k` is kept by pruning all `n`
/// blocks only if it was kept by pruning the first `k + 1`.
proof fn lemma_prune_kept_early<O>(bs: Seq<TreeBlock<O>>, b: [u8; 32], k: int, n: int)
    requires
        tree_wf(bs),
        0 <= k < n <= bs.len(),
        has_block(spec_prune(bs.take(n), b), bs[k].id),
    ensures
        has_block(spec_prune(bs.take(k + 1), b), bs[k].id),
    decreases n - k,
{
    if n > k + 1 {
        lemma_prune_step(bs, b, n - 1);
        let p = spec_prune(bs.take(n - 1), b);
        let q = spec_prune(bs.take(n), b);
        let x = choose|x: int| 0 <= x < q.len() && (#[trigger] q[x]).id == bs[k].id;
        if q != p {
            if x == p.len() {
                assert(q[x] == bs[n - 1]);
                assert(bs[n - 1].id == bs[k].id);
            } else {
                assert(q[x] == p[x]);
            }
        }
        assert(has_block(p, bs[k].id));
        lemma_prune_kept_early(bs, b, k, n - 1);
    }
}

/// Committing `b` keeps all of its descendants: in a well formed tree, the
/// committed block is kept, and a block (other than the old committed one)
/// whose parent is kept is kept too.
/// Nothing else is kept: every kept block is a block of the tree that is
/// `b` or whose parent is kept.
pub proof fn lemma_prune_keeps_descendants<O>(bs: Seq<TreeBlock<O>>, b: [u8; 32], i: int)
    requires
        tree_wf(bs),
        0 <= i < bs.len(),
    ensures
        bs[i].id == b || (i > 0 && has_block(spec_prune(bs, b), bs[i].parent)) ==> has_block(
            spec_prune(bs, b),
            bs[i].id,
        ),
        has_block(spec_prune(bs, b), bs[i].id) ==> bs[i].id == b || has_block(
            spec_prune(bs, b),
            bs[i].parent,
        ),
{
    let n = bs.len() as int;
    assert(bs.take(n) =~= bs);
    lemma_prune_step(bs, b, i);
    let pi = spec_prune(bs.take(i), b);
    let pj = spec_prune(bs.take(i + 1), b);
    if bs[i].id == b || (i > 0 && has_block(spec_prune(bs, b), bs[i].parent)) {
        if bs[i].id != b {
            // The parent comes before `i` and was kept by then.
            assert(parent_before(bs, i));
            let j = choose|j: int| 0 <= j < i && (#[trigger] bs[j]).id == bs[i].parent;
            lemma_prune_kept_early(bs, b, j, n);
            lemma_prune_grows(bs, b, j + 1, i, bs[j].id);
        }
        assert(pj[pi.len() as int] == bs[i]);
        lemma_prune_grows(bs, b, i + 1, n, bs[i].id);
    }
    if has_block(spec_prune(bs, b), bs[i].id) && bs[i].id != b {
        lemma_prune_kept_early(bs, b, i, n);
        if !has_block(pi, bs[i].parent) {
            // Without its parent kept, the block was not added at `i`, and
            // nothing before `i` carries its id.
            lemma_prune(bs.take(i), b);
            let x = choose|x: int| 0 <= x < pj.len() && (#[trigger] pj[x]).id == bs[i].id;
            let c = choose|c: int| 0 <= c < bs.take(i).len() && bs.take(i)[c] == pj[x];
            assert(bs[c].id == bs[i].id);
        }
        lemma_prune_grows(bs, b, i, n, bs[i].parent);
    }
}

/// Committing block `b` makes it the committed block: pruning a well
/// formed tree that holds `b` gives a well formed tree whose first block
/// is `b`.
pub proof fn lemma_prune_root<O>(bs: Seq<TreeBlock<O>>, b: [u8; 32])
    requires
        tree_wf(bs),
        has_block(bs, b),
    ensures
        tree_wf(spec_prune(bs, b)),
        spec_prune(bs, b)[0].id == b,
{
    lemma_prune(bs, b);
    let p = spec_prune(bs, b);
    assert(p.len() > 0);
    if p[0].id != b {
        assert(parent_before(p, 0));
    }
    assert forall|i: int, j: int|
        0 <= i < p.len() && 0 <= j < p.len() && #[trigger] p[i].id == #[trigger] p[j].id implies i
            == j by {
        lemma_prune_increasing(bs, b, i, j);
    }
    assert forall|i: int| 0 < i < p.len() implies parent_before(p, i) by {
        if p[i].id == b {
            lemma_prune_increasing(bs, b, 0, i);
        }
    }
}

/// Pruning keeps blocks of distinct ids at distinct places.
#[verifier::spinoff_prover]
#[verifier::rlimit(40)]
proof fn lemma_prune_increasing<O>(bs: Seq<TreeBlock<O>>, b: [u8; 32], i: int, j: int)
    requires
        tree_wf(bs),
        0 <= i < spec_prune(bs, b).len(),
        0 <= j < spec_prune(bs, b).len(),
        spec_prune(bs, b)[i].id == spec_prune(bs, b)[j].id,
    ensures
        i == j,
    decreases bs.len(),
{
    let init = bs.drop_last();
    let pre = spec_prune(init, b);
    let p = spec_prune(bs, b);
    lemma_prune(init, b);
    assert(tree_wf(init) || init.len() == 0) by {
        if init.len() > 0 {
            assert forall|a: int| 0 < a < init.len() implies parent_before(init, a) by {
                assert(parent_before(bs, a));
                let c = choose|c: int| 0 <= c < a && (#[trigger] bs[c]).id == bs[a].parent;
                assert(init[c] == bs[c]);
            }
        }
    }
    if i < pre.len() && j < pre.len() {
        lemma_prune_increasing(init, b, i, j);
    } else if i < pre.len() || j < pre.len() {
        let k = if i < pre.len() { i } else { j };
        let c = choose|c: int| 0 <= c < init.len() && init[c] == pre[k];
        assert(bs[c] == pre[k]);
        assert(p[k] == pre[k]);
        assert(bs[bs.len() - 1].id == bs[c].id);
    }
}

/// What the tree knows of block `b` and its parent `p`.
pub open spec fn spec_tree_lookup<O>(bs: Seq<TreeBlock<O>>, b: [u8; 32], p: [u8; 32]) -> TreeLookup {
    TreeLookup {
        parent_found: has_block(bs, p),
        block_found: has_block(bs, b),
        parent_has_child: has_block(bs, b) && bs[block_at(bs, b)].parent == p,
        parent_has_reconfiguration: has_block(bs, p) && bs[block_at(bs, p)].reconfig,
    }
}

/// Executing block `b` on top of `p` in the tree `bs`: the result and the
/// tree afterwards. `fresh` is the output (and whether it ends an epoch)
/// made for a block that is new to the tree: by the VM, or the parent's
/// reconfiguration suffix, as the plan says. A retry gives the output
/// stored the first time and leaves the tree as it is.
pub open spec fn spec_execute_block<O>(
    bs: Seq<TreeBlock<O>>,
    b: [u8; 32],
    p: [u8; 32],
    fresh: (O, bool),
) -> (Result<O, ExecutorError>, Seq<TreeBlock<O>>) {
    match spec_execute_plan(b, p, bs[0].id, spec_tree_lookup(bs, b, p)) {
        Err(e) => (Err(e), bs),
        Ok(ExecutePlan::Retry) => (Ok(bs[block_at(bs, b)].output), bs),
        Ok(_) => (
            Ok(fresh.0),
            bs.push(TreeBlock { id: b, parent: p, output: fresh.0, reconfig: fresh.1 }),
        ),
    }
}

/// How a block is executed on a tree follows from the blocks the tree
/// holds: a parent that is not in the tree is not found; a block already
/// in the tree is a retry when it hangs under the given parent and refused
/// otherwise; a new block on a parent that ends an epoch and is not the
/// committed block only inherits the parent's reconfiguration, and any
/// other new block is run by the VM.
pub proof fn lemma_plan_in_tree<O>(bs: Seq<TreeBlock<O>>, b: [u8; 32], p: [u8; 32])
    requires
        tree_wf(bs),
    ensures
        !has_block(bs, p) ==> spec_execute_plan(b, p, bs[0].id, spec_tree_lookup(bs, b, p)) == Err::<
            ExecutePlan,
            ExecutorError,
        >(ExecutorError::BlockNotFound(p)),
        forall|ip: int, ib: int|
            #![trigger bs[ip], bs[ib]]
            0 <= ip < bs.len() && 0 <= ib < bs.len() && bs[ip].id == p && bs[ib].id == b
                ==> spec_execute_plan(b, p, bs[0].id, spec_tree_lookup(bs, b, p)) == (if bs[ib].parent
                == p {
                Ok::<ExecutePlan, ExecutorError>(ExecutePlan::Retry)
            } else {
                Err::<ExecutePlan, ExecutorError>(ExecutorError::NotAChild { parent: p, child: b })
            }),
        forall|ip: int|
            0 <= ip < bs.len() && #[trigger] bs[ip].id == p && !has_block(bs, b) ==> spec_execute_plan(
                b,
                p,
                bs[0].id,
                spec_tree_lookup(bs, b, p),
            ) == (if ip != 0 && bs[ip].reconfig {
                Ok::<ExecutePlan, ExecutorError>(ExecutePlan::ReconfigSuffix)
            } else {
                Ok::<ExecutePlan, ExecutorError>(ExecutePlan::Execute)
            }),
{
    assert forall|ip: int, ib: int|
        #![trigger bs[ip], bs[ib]]
        0 <= ip < bs.len() && 0 <= ib < bs.len() && bs[ip].id == p && bs[ib].id == b
            implies spec_execute_plan(b, p, bs[0].id, spec_tree_lookup(bs, b, p)) == (if bs[ib].parent
            == p {
            Ok::<ExecutePlan, ExecutorError>(ExecutePlan::Retry)
        } else {
            Err::<ExecutePlan, ExecutorError>(ExecutorError::NotAChild { parent: p, child: b })
        }) by {
        assert(has_block(bs, b));
        assert(has_block(bs, p));
        let k = block_at(bs, b);
        assert(bs[k].id == b);
    }
    assert forall|ip: int|
        0 <= ip < bs.len() && #[trigger] bs[ip].id == p && !has_block(bs, b) implies spec_execute_plan(
            b,
            p,
            bs[0].id,
            spec_tree_lookup(bs, b, p),
        ) == (if ip != 0 && bs[ip].reconfig {
            Ok::<ExecutePlan, ExecutorError>(ExecutePlan::ReconfigSuffix)
        } else {
            Ok::<ExecutePlan, ExecutorError>(ExecutePlan::Execute)
        }) by {
        assert(has_block(bs, p));
        let k = block_at(bs, p);
        assert(bs[k].id == p);
        assert(k == ip);
        if ip != 0 {
            assert(bs[0].id != p);
        }
    }
}

/// A block that was executed is executed again as a retry: the same
/// output comes back, whatever output would be made now, and the tree
/// stays as it is.
pub proof fn lemma_execute_block_retry<O>(
    bs: Seq<TreeBlock<O>>,
    b: [u8; 32],
    p: [u8; 32],
    first: (O, bool),
    again: (O, bool),
)
    requires
        tree_wf(bs),
        spec_execute_block(bs, b, p, first).0 is Ok,
    ensures
        tree_wf(spec_execute_block(bs, b, p, first).1),
        spec_execute_block(spec_execute_block(bs, b, p, first).1, b, p, again) == (
            spec_execute_block(bs, b, p, first).0,
            spec_execute_block(bs, b, p, first).1,
        ),
{
    let bs1 = spec_execute_block(bs, b, p, first).1;
    let r0 = spec_execute_block(bs, b, p, first).0;
    let l = spec_tree_lookup(bs, b, p);
    assert(l.parent_found);
    let ip = block_at(bs, p);
    assert(0 <= ip < bs.len() && bs[ip].id == p);
    if l.block_found {
        let ib = block_at(bs, b);
        assert(0 <= ib < bs.len() && bs[ib].id == b);
        assert(bs1 == bs);
    } else {
        let n = bs.len() as int;
        assert(bs1[n].id == b);
        assert forall|i: int, j: int|
            0 <= i < bs1.len() && 0 <= j < bs1.len() && #[trigger] bs1[i].id == #[trigger] bs1[j].id
                implies i == j by {
            if i < n && j == n {
                assert(bs[i].id == b);
            } else if j < n && i == n {
                assert(bs[j].id == b);
            }
        }
        assert(bs1[ip].id == p);
        assert forall|i: int| 0 < i < bs1.len() implies parent_before(bs1, i) by {
            if i < n {
                assert(parent_before(bs, i));
                let c = choose|c: int| 0 <= c < i && (#[trigger] bs[c]).id == bs[i].parent;
                assert(bs1[c] == bs[c]);
            } else {
                assert(bs1[ip].id == bs1[i].parent);
            }
        }
        assert(has_block(bs1, p));
        assert(has_block(bs1, b));
        let jb = block_at(bs1, b);
        assert(jb == n);
        assert(bs1[0] == bs[0]);
    }
}

/// Whether one of `bs` has id `id`.
fn holds_id<O>(bs: &Vec<TreeBlock<O>>, id: &[u8; 32]) -> (r: bool)
    ensures
        r == has_block(bs@, *id),
{
    let mut i: usize = 0;
    while i < bs.len()
        invariant
            i <= bs@.len(),
            forall|j: int| 0 <= j < i ==> (#[trigger] bs@[j]).id != *id,
        decreases bs@.len() - i,
    {
        if same_id(&bs[i].id, id) {
            return true;
        }
        i = i + 1;
    }
    false
}

impl<O: Copy> BlockTree<O> {
    /// The index of the block with id `id`, if the tree holds one.
    fn find(&self, id: &[u8; 32]) -> (r: Option<usize>)
        requires
            tree_wf(self.blocks@),
        ensures
            match r {
                Some(i) => i < self.blocks@.len() && self.blocks@[i as int].id == *id && i
                    == block_at(self.blocks@, *id),
                None => !has_block(self.blocks@, *id),
            },
    {
        let mut i: usize = 0;
        while i < self.blocks.len()
            invariant
                tree_wf(self.blocks@),
                i <= self.blocks@.len(),
                forall|j: int| 0 <= j < i ==> (#[trigger] self.blocks@[j]).id != *id,
            decreases self.blocks@.len() - i,
        {
            if same_id(&self.blocks[i].id, id) {
                proof {
                    let k = block_at(self.blocks@, *id);
                    assert(self.blocks@[i as int].id == *id);
                    assert(self.blocks@[k].id == *id);
                }
                return Some(i);
            }
            i = i + 1;
        }
        None
    }

    /// Commits block `block_id`, as the ledger info signed for it asks: it
    /// becomes the committed block, and only the blocks that descend from
    /// it stay in the tree.
    pub fn commit(&mut self, block_id: [u8; 32])
        requires
            tree_wf(old(self).blocks@),
            has_block(old(self).blocks@, block_id),
        ensures
            final(self).blocks@ == spec_prune(old(self).blocks@, block_id),
            final(self).blocks@[0].id == block_id,
            tree_wf(final(self).blocks@),
    {
        let ghost orig = self.blocks@;
        let mut kept: Vec<TreeBlock<O>> = Vec::new();
        let mut i: usize = 0;
        while i < self.blocks.len()
            invariant
                self.blocks@ == orig,
                i <= orig.len(),
                kept@ == spec_prune(orig.subrange(0, i as int), block_id),
            decreases orig.len() - i,
        {
            let id = self.blocks[i].id;
            let parent = self.blocks[i].parent;
            let keep = same_id(&id, &block_id) || holds_id(&kept, &parent);
            proof {
                assert(orig.subrange(0, i + 1).drop_last() =~= orig.subrange(0, i as int));
                assert(orig.subrange(0, i + 1).last() == orig[i as int]);
            }
            if keep {
                kept.push(
                    TreeBlock {
                        id,
                        parent,
                        output: self.blocks[i].output,
                        reconfig: self.blocks[i].reconfig,
                    },
                );
            }
            i = i + 1;
        }
        proof {
            assert(orig.subrange(0, orig.len() as int) =~= orig);
            lemma_prune_root(orig, block_id);
        }
        self.blocks = kept;
    }

    /// How block `block_id` is executed on top of `parent_id` in this tree,
    /// the first block being the committed one.
    pub fn plan(&self, block_id: [u8; 32], parent_id: [u8; 32]) -> (r: Result<ExecutePlan, ExecutorError>)
        requires
            tree_wf(self.blocks@),
        ensures
            r == spec_execute_plan(
                block_id,
                parent_id,
                self.blocks@[0].id,
                spec_tree_lookup(self.blocks@, block_id, parent_id),
            ),
    {
        let ib = self.find(&block_id);
        let ip = self.find(&parent_id);
        let tree = TreeLookup {
            parent_found: ip.is_some(),
            block_found: ib.is_some(),
            parent_has_child: match ib {
                Some(i) => same_id(&self.blocks[i].parent, &parent_id),
                None => false,
            },
            parent_has_reconfiguration: match ip {
                Some(i) => self.blocks[i].reconfig,
                None => false,
            },
        };
        plan_execute_block(block_id, parent_id, self.blocks[0].id, &tree)
    }

    /// Executes block `block_id` on top of `parent_id`: a retry gives the
    /// output stored the first time; a new block is added with `fresh`, the
    /// output made for it (by the VM, or the parent's reconfiguration
    /// suffix, as `plan` says), which is then returned.
    pub fn execute_block(
        &mut self,
        block_id: [u8; 32],
        parent_id: [u8; 32],
        fresh_output: O,
        fresh_reconfig: bool,
    ) -> (r: Result<O, ExecutorError>)
        requires
            tree_wf(old(self).blocks@),
        ensures
            (r, final(self).blocks@) == spec_execute_block(
                old(self).blocks@,
                block_id,
                parent_id,
                (fresh_output, fresh_reconfig),
            ),
            tree_wf(final(self).blocks@),
    {
        let plan = self.plan(block_id, parent_id);
        match plan {
            Err(e) => Err(e),
            Ok(ExecutePlan::Retry) => {
                let ib = self.find(&block_id);
                match ib {
                    Some(i) => Ok(self.blocks[i].output),
                    None => Ok(fresh_output),
                }
            },
            Ok(_) => {
                proof {
                    lemma_execute_block_retry(
                        self.blocks@,
                        block_id,
                        parent_id,
                        (fresh_output, fresh_reconfig),
                        (fresh_output, fresh_reconfig),
                    );
                }
                self.blocks.push(
                    TreeBlock {
                        id: block_id,
                        parent: parent_id,
                        output: fresh_output,
                        reconfig: fresh_reconfig,
                    },
                );
                Ok(fresh_output)
            },
        }
    }
}

/// The status a transaction came out of the VM with.
#[derive(Debug)]
pub enum TxnStatus {
    /// Kept in the ledger, whatever its execution status.
    Keep,
    /// Discarded, with the VM status code.
    Discard(u64),
    /// To be retried in a later block.
    Retry,
}

/// The name printed for the discard codes that the executor reports by name.
pub open spec fn discard_name(code: u64) -> Option<Seq<char>> {
    if code == 0xffff_ffff_ffff_ffff {
        Some("UNKNOWN_STATUS"@)
    } else if code == 0 {
        Some("UNKNOWN_VALIDATION_STATUS"@)
    } else if code == 1 {
        Some("INVALID_SIGNATURE"@)
    } else if code == 2 {
        Some("INVALID_AUTH_KEY"@)
    } else if code == 3 {
        Some("SEQUENCE_NUMBER_TOO_OLD"@)
    } else if code == 4 {
        Some("SEQUENCE_NUMBER_TOO_NEW"@)
    } else if code == 5 {
        Some("INSUFFICIENT_BALANCE_FOR_TRANSACTION_FEE"@)
    } else if code == 6 {
        Some("TRANSACTION_EXPIRED"@)
    } else {
        None
    }
}

/// The lines printed for a transaction's status after the block ran.
pub open spec fn status_report_text(s: TxnStatus) -> Seq<Seq<char>> {
    match s {
        TxnStatus::Keep => seq!["------contract status---Success------"@],
        TxnStatus::Discard(code) => match discard_name(code) {
            Some(name) => seq![
                "------contract status------Discard----"@,
                "------contract status------Discard--"@ + name + "--"@,
            ],
            None => seq!["------contract status------Discard----"@],
        },
        TxnStatus::Retry => seq!["------contract status---retry------"@],
    }
}

fn discard_label(code: u64) -> (r: Option<&'static str>)
    ensures
        match (r, discard_name(code)) {
            (Some(s), Some(n)) => s@ == n,
            (None, None) => true,
            _ => false,
        },
{
    if code == 0xffff_ffff_ffff_ffff {
        Some("UNKNOWN_STATUS")
    } else if code == 0 {
        Some("UNKNOWN_VALIDATION_STATUS")
    } else if code == 1 {
        Some("INVALID_SIGNATURE")
    } else if code == 2 {
        Some("INVALID_AUTH_KEY")
    } else if code == 3 {
        Some("SEQUENCE_NUMBER_TOO_OLD")
    } else if code == 4 {
        Some("SEQUENCE_NUMBER_TOO_NEW")
    } else if code == 5 {
        Some("INSUFFICIENT_BALANCE_FOR_TRANSACTION_FEE")
    } else if code == 6 {
        Some("TRANSACTION_EXPIRED")
    } else {
        None
    }
}

/// The lines reported for a transaction's status.
pub fn status_report(s: &TxnStatus) -> (r: Vec<String>)
    ensures
        r@.len() == status_report_text(*s).len(),
        forall|i: int| 0 <= i < r@.len() ==> (#[trigger] r@[i])@ == status_report_text(*s)[i],
{
    let mut out: Vec<String> = Vec::new();
    match s {
        TxnStatus::Keep => {
            out.push(String::from_str("------contract status---Success------"));
        },
        TxnStatus::Discard(code) => {
            out.push(String::from_str("------contract status------Discard----"));
            match discard_label(*code) {
                Some(name) => {
                    let head = crate::text::concat_text("------contract status------Discard--", name);
                    out.push(crate::text::concat_text(head.as_str(), "--"));
                },
                None => {},
            }
        },
        TxnStatus::Retry => {
            out.push(String::from_str("------contract status---retry------"));
        },
    }
    out
}

/// What a commit request comes to before any transaction is saved.
#[derive(PartialEq, Eq, Structural, Debug)]
pub enum CommitStep {
    /// The ledger already holds the target version: nothing to do.
    AlreadyCommitted,
    /// The blocks are to be saved.
    Proceed,
}

/// The first checks of a commit of `block_ids` up to the ledger info at
/// `target_version` for block `target_block_id`, given how many
/// transactions the committed block has persisted.
pub open spec fn spec_plan_commit(
    block_ids: Seq<[u8; 32]>,
    persisted: u64,
    target_version: u64,
) -> Result<CommitStep, ExecutorError> {
    if block_ids.len() == 0 {
        Err(ExecutorError::CommitNothing)
    } else if persisted == target_version + 1 {
        Ok(CommitStep::AlreadyCommitted)
    } else {
        Ok(CommitStep::Proceed)
    }
}

/// Checks a commit request: no block at all is refused, a ledger that
/// already reached the target version makes the commit a retry, and
/// otherwise the blocks are saved. The last block must be the one the
/// ledger info is signed for; anything else is a broken caller.
pub fn plan_commit(
    block_ids: &Vec<[u8; 32]>,
    persisted: u64,
    target_version: u64,
    target_block_id: [u8; 32],
) -> (r: Result<CommitStep, ExecutorError>)
    requires
        block_ids@.len() > 0 ==> target_version < u64::MAX,
        block_ids@.len() > 0 && persisted != target_version + 1 ==> block_ids@.last()
            == target_block_id,
    ensures
        r == spec_plan_commit(block_ids@, persisted, target_version),
{
    if block_ids.len() == 0 {
        return Err(ExecutorError::CommitNothing);
    }
    if persisted == target_version + 1 {
        return Ok(CommitStep::AlreadyCommitted);
    }
    Ok(CommitStep::Proceed)
}

/// The transactions to commit start at `first_version` and must end at
/// `target_version`.
pub open spec fn commit_count_fits(first_version: u64, to_commit: usize, target_version: u64) -> bool {
    first_version + to_commit == target_version + 1
}

/// Checks that the transactions to commit end at the target version.
pub fn check_commit_count(first_version: u64, to_commit: usize, target_version: u64) -> (r: Result<
    (),
    ExecutorError,
>)
    requires
        first_version + to_commit <= u64::MAX,
        target_version < u64::MAX,
    ensures
        r is Ok <==> commit_count_fits(first_version, to_commit, target_version),
        r matches Err(e) ==> e == (ExecutorError::BadNumTxnsToCommit {
            first_version,
            to_commit,
            target_version,
        }),
{
    let n: u64 = to_commit as u64;
    if first_version + n != target_version + 1 {
        return Err(ExecutorError::BadNumTxnsToCommit { first_version, to_commit, target_version });
    }
    Ok(())
}

/// Once a commit whose transactions fit has been saved, the ledger holds
/// `first_version + to_commit` transactions, and the same commit request
/// asked again is answered as already done.
pub proof fn lemma_commit_then_retry(
    block_ids: Seq<[u8; 32]>,
    first_version: u64,
    to_commit: usize,
    target_version: u64,
)
    requires
        block_ids.len() > 0,
        commit_count_fits(first_version, to_commit, target_version),
        target_version < u64::MAX,
    ensures
        spec_plan_commit(block_ids, (first_version + to_commit) as u64, target_version) == Ok::<
            CommitStep,
            ExecutorError,
        >(CommitStep::AlreadyCommitted),
{
}

/// The views of a sequence of vectors.
pub open spec fn views<T>(blocks: Seq<Vec<T>>) -> Seq<Seq<T>> {
    blocks.map_values(|b: Vec<T>| b@)
}

/// The transactions of all blocks, block after block, each in its order.
pub fn flatten_blocks<T>(blocks: Vec<Vec<T>>) -> (r: Vec<T>)
    ensures
        r@ == views(blocks@).flatten(),
{
    let ghost whole = views(blocks@).flatten();
    let mut rest = blocks;
    let mut out: Vec<T> = Vec::new();
    while rest.len() > 0
        invariant
            out@ + views(rest@).flatten() == whole,
        decreases rest@.len(),
    {
        let ghost before = rest@;
        let mut first = rest.remove(0);
        proof {
            assert(views(rest@) =~= views(before).drop_first());
            assert(views(before).first() == first@);
        }
        let ghost piece = first@;
        let ghost done = out@;
        out.append(&mut first);
        proof {
            assert(out@ =~= done + piece);
            assert(done + (piece + views(rest@).flatten()) =~= out@ + views(rest@).flatten());
        }
    }
    proof {
        assert(views(rest@) =~= Seq::<Seq<T>>::empty());
        assert(out@ + Seq::<T>::empty() =~= out@);
    }
    out
}

} // verus!
