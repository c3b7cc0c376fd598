use movement::vm::{build_block, inner_build_block};
use movement::executor::{
    check_commit_count, flatten_blocks, plan_commit, plan_execute_block, same_id, status_report,
    BlockTree, CommitStep, ExecutePlan, ExecutorError, TreeBlock, TreeLookup, TxnStatus,
};
use movement::vm::{child_height, health_check, parsed_block, state_manager_missing, unsupported, UnsupportedOp, FAUCET_OCTAS};
use movement::vm::{
    assemble_block, block, build_reply, check_block_ids, db_path, gen_block_id, gossip_plan,
    initial_preference, mempool_commits, rpc_response, AptosData, BlockTxn, BuildGate,
    GetBlockResponse, NotifyAction, PendingWatch, ResponseContent, SnowState,
    SubmitTransactionArgs, TickAction, VmErrorKind, VmState, CHECK_TIMEOUT_MS,
};

fn lookup(parent_found: bool, block_found: bool, has_child: bool, reconfig: bool) -> TreeLookup {
    TreeLookup {
        parent_found,
        block_found,
        parent_has_child: has_child,
        parent_has_reconfiguration: reconfig,
    }
}

#[test]
fn execute_plan_cases() {
    let b = gen_block_id(2);
    let p = gen_block_id(1);
    let committed = gen_block_id(1);
    assert!(matches!(
        plan_execute_block(b, p, committed, &lookup(false, false, false, false)),
        Err(ExecutorError::BlockNotFound(x)) if x == p
    ));
    assert_eq!(plan_execute_block(b, p, committed, &lookup(true, true, true, false)).unwrap(), ExecutePlan::Retry);
    assert!(matches!(
        plan_execute_block(b, p, committed, &lookup(true, true, false, false)),
        Err(ExecutorError::NotAChild { .. })
    ));
    assert_eq!(plan_execute_block(b, p, committed, &lookup(true, false, false, true)).unwrap(), ExecutePlan::Execute);
    let other = gen_block_id(0);
    assert_eq!(
        plan_execute_block(b, p, other, &lookup(true, false, false, true)).unwrap(),
        ExecutePlan::ReconfigSuffix
    );
    assert_eq!(plan_execute_block(b, p, other, &lookup(true, false, false, false)).unwrap(), ExecutePlan::Execute);
}

#[test]
fn status_lines() {
    assert_eq!(status_report(&TxnStatus::Keep), vec!["------contract status---Success------".to_string()]);
    assert_eq!(status_report(&TxnStatus::Retry), vec!["------contract status---retry------".to_string()]);
    assert_eq!(
        status_report(&TxnStatus::Discard(3)),
        vec![
            "------contract status------Discard----".to_string(),
            "------contract status------Discard--SEQUENCE_NUMBER_TOO_OLD--".to_string(),
        ]
    );
    assert_eq!(
        status_report(&TxnStatus::Discard(u64::MAX)),
        vec![
            "------contract status------Discard----".to_string(),
            "------contract status------Discard--UNKNOWN_STATUS--".to_string(),
        ]
    );
    assert_eq!(status_report(&TxnStatus::Discard(4001)), vec!["------contract status------Discard----".to_string()]);
}

#[test]
fn commit_checks() {
    let ids = vec![gen_block_id(1), gen_block_id(2)];
    assert!(matches!(plan_commit(&vec![], 5, 9, gen_block_id(2)), Err(ExecutorError::CommitNothing)));
    assert_eq!(plan_commit(&ids, 10, 9, gen_block_id(7)).unwrap(), CommitStep::AlreadyCommitted);
    assert_eq!(plan_commit(&ids, 5, 9, gen_block_id(2)).unwrap(), CommitStep::Proceed);
    assert!(check_commit_count(5, 5, 9).is_ok());
    assert!(matches!(
        check_commit_count(5, 4, 9),
        Err(ExecutorError::BadNumTxnsToCommit { first_version: 5, to_commit: 4, target_version: 9 })
    ));
    // After a commit that fits, the same request is a retry.
    assert_eq!(plan_commit(&ids, 5 + 5, 9, gen_block_id(2)).unwrap(), CommitStep::AlreadyCommitted);
}

#[test]
fn flattening_keeps_block_order() {
    let blocks = vec![vec![1, 2], vec![], vec![3], vec![4, 5, 6]];
    assert_eq!(flatten_blocks(blocks), vec![1, 2, 3, 4, 5, 6]);
    assert_eq!(flatten_blocks::<u8>(vec![]), Vec::<u8>::new());
}

#[test]
fn ids_compare_bytewise() {
    assert!(same_id(&gen_block_id(3), &[3u8; 32]));
    assert!(!same_id(&gen_block_id(3), &gen_block_id(4)));
    assert_eq!(gen_block_id(9), [9u8; 32]);
}

#[test]
fn vm_state_transitions() {
    let mut st = VmState::default();
    assert!(!st.is_bootstrapped());
    assert_eq!(st.preferred, [0u8; 32]);
    st.set_state(SnowState::NormalOp).unwrap();
    assert!(st.is_bootstrapped());
    let err = st.set_state(SnowState::StateSyncing).unwrap_err();
    assert_eq!(err.kind, VmErrorKind::Other);
    assert_eq!(err.message, "state sync is not supported");
    assert!(st.is_bootstrapped());
    st.set_state(SnowState::NormalOp).unwrap();
    assert!(st.is_bootstrapped());
    st.set_state(SnowState::Bootstrapping).unwrap();
    assert!(!st.is_bootstrapped());
    st.set_preference([5u8; 32]);
    st.set_state(SnowState::Initializing).unwrap();
    assert_eq!(st.preferred, [5u8; 32]);
    assert!(!st.is_bootstrapped());
    assert_eq!(initial_preference(Some([1u8; 32]), [2u8; 32]), [1u8; 32]);
    assert_eq!(initial_preference(None, [2u8; 32]), [2u8; 32]);
}

#[test]
fn block_building_gate() {
    let mut g = BuildGate::new();
    assert_eq!(g.notify_action(true), NotifyAction::Send);
    assert_eq!(g.notify_action(false), NotifyAction::NoEngine);
    g.after_send(false);
    assert!(!g.building);
    g.after_send(true);
    assert_eq!(g.notify_action(true), NotifyAction::Skip);
    g.finish_block();
    assert_eq!(g.notify_action(true), NotifyAction::Send);
    g.after_send(true);
    g.mark_idle();
    assert!(!g.building);
}

#[test]
fn pending_watcher_ticks() {
    let mut w = PendingWatch::new(1000);
    assert_eq!(w.tick(true, 1500, CHECK_TIMEOUT_MS), TickAction::Restarted);
    assert_eq!(w.last_check_ms, 1500);
    assert_eq!(w.tick(false, 2000, CHECK_TIMEOUT_MS), TickAction::LookForPending);
    assert!(!w.pending_seen(false, 2000));
    assert_eq!(w.last_check_ms, 1500);
    assert_eq!(w.tick(false, 3500, CHECK_TIMEOUT_MS), TickAction::LookForPending);
    assert_eq!(w.tick(false, 3501, CHECK_TIMEOUT_MS), TickAction::MarkIdle);
    assert_eq!(w.last_check_ms, 3501);
    assert!(w.pending_seen(true, 3600));
    assert_eq!(w.last_check_ms, 3600);
}

#[test]
fn idle_watcher_keeps_asking_the_mempool() {
    let mut w = PendingWatch::new(0);
    assert_eq!(w.tick(false, 3000, CHECK_TIMEOUT_MS), TickAction::MarkIdle);
    assert_eq!(w.tick(false, 3500, CHECK_TIMEOUT_MS), TickAction::LookForPending);
    assert_eq!(w.tick(false, 4000, CHECK_TIMEOUT_MS), TickAction::LookForPending);
}

#[test]
fn batch_gossip_skips_refused_transactions() {
    let plan = gossip_plan(5, &vec![3, 1]);
    assert_eq!(plan.gossip, vec![0usize, 2, 4]);
    assert!(plan.notify);
    let plan = gossip_plan(3, &vec![]);
    assert_eq!(plan.gossip, vec![0usize, 1, 2]);
    assert!(!plan.notify);
    let plan = gossip_plan(2, &vec![7]);
    assert_eq!(plan.gossip, vec![0usize, 1]);
    assert!(!plan.notify);
}

#[test]
fn built_blocks_are_checked() {
    let a = gen_block_id(1);
    let b = gen_block_id(2);
    assert!(check_block_ids(&a, &a, &b, &b).is_ok());
    let e = check_block_ids(&a, &b, &b, &b).unwrap_err();
    assert_eq!(e.kind, VmErrorKind::Interrupted);
    assert_eq!(e.message, "block format error");
    let e = check_block_ids(&a, &a, &a, &b).unwrap_err();
    assert_eq!(e.message, "block error,maybe not sync ");
}

#[test]
fn committed_user_transactions_leave_the_mempool() {
    let txns = vec![
        BlockTxn::System,
        BlockTxn::User { sender: [1u8; 32], sequence_number: 4 },
        BlockTxn::User { sender: [2u8; 32], sequence_number: 0 },
        BlockTxn::System,
    ];
    assert_eq!(mempool_commits(&txns), vec![([1u8; 32], 4u64), ([2u8; 32], 0u64)]);
    assert_eq!(build_reply(true, vec![1, 2]), vec![1u8, 2]);
    assert_eq!(build_reply(false, vec![1, 2]), Vec::<u8>::new());
}

#[test]
fn block_assembly() {
    assert_eq!(assemble_block("meta", vec!["t1", "t2"], "cp"), vec!["meta", "t1", "t2", "cp"]);
    assert_eq!(assemble_block(0, vec![], 9), vec![0, 9]);
    assert_eq!(block(vec![1, 2], 3), vec![1, 2, 3]);
    let g = AptosData::genesis();
    assert_eq!(g.0, b"hello world".to_vec());
    assert_eq!(g.1, [0u8; 32]);
    assert_eq!(g.3, 0);
    assert!(g.5.is_empty());
}

#[test]
fn rpc_answers() {
    let r = rpc_response(ResponseContent::Bcs(vec![0xab, 0x01]), "{}".to_string());
    assert_eq!(r.data, "ab01");
    assert_eq!(r.header, "{}");
    let r = rpc_response(ResponseContent::Json("[1]".to_string()), "h".to_string());
    assert_eq!(r.data, "[1]");
    let args = SubmitTransactionArgs { data: "0a0b".to_string() };
    assert_eq!(args.payload().unwrap(), vec![10u8, 11]);
    let bad = SubmitTransactionArgs { data: "0a0".to_string() };
    assert!(bad.payload().is_err());
    let resp = GetBlockResponse::new(7u32, b"abc");
    assert_eq!(resp.block, 7);
    assert_eq!(resp.data, "abc");
    assert_eq!(db_path("/home/u", &[0x01, 0xff]), "/home/u/aptos-chain-data/01ff");
}

#[test]
fn vm_small_answers() {
    assert_eq!(health_check(), b"200".to_vec());
    assert_eq!(state_manager_missing().kind, VmErrorKind::NotFound);
    assert_eq!(parsed_block(true, Some(1), 2).unwrap(), 1);
    assert_eq!(parsed_block(true, None, 2).unwrap(), 2);
    assert_eq!(parsed_block(false, Some(1), 2).unwrap_err().message, "state manager not found");
    let e = unsupported(UnsupportedOp::IssueTx);
    assert_eq!(e.kind, VmErrorKind::Unsupported);
    assert_eq!(e.message, "issue_tx not implemented");
    assert_eq!(unsupported(UnsupportedOp::GetAncestors).message, "get_ancestors not implemented");
    assert_eq!(FAUCET_OCTAS, 1_000_000_000);
    assert_eq!(child_height(41), 42);
}

#[test]
fn block_tree_retry_gives_the_first_output() {
    let root = [0u8; 32];
    let b1 = gen_block_id(1);
    let mut tree = BlockTree {
        blocks: vec![TreeBlock { id: root, parent: root, output: 10u64, reconfig: false }],
    };
    assert_eq!(tree.plan(b1, root).unwrap(), ExecutePlan::Execute);
    assert_eq!(tree.execute_block(b1, root, 11, false).unwrap(), 11);
    assert_eq!(tree.plan(b1, root).unwrap(), ExecutePlan::Retry);
    assert_eq!(tree.execute_block(b1, root, 99, true).unwrap(), 11);
    assert_eq!(tree.blocks.len(), 2);
    let missing = gen_block_id(7);
    assert!(matches!(tree.execute_block(gen_block_id(2), missing, 5, false), Err(ExecutorError::BlockNotFound(_))));
    assert!(matches!(tree.execute_block(b1, b1, 5, false), Err(ExecutorError::NotAChild { .. })));
}

#[test]
fn empty_commit_at_the_last_version() {
    assert!(matches!(plan_commit(&vec![], 0, u64::MAX, [0u8; 32]), Err(ExecutorError::CommitNothing)));
}

#[test]
fn commit_prunes_to_the_committed_block() {
    let root = [0u8; 32];
    let (b1, b2, b3) = (gen_block_id(1), gen_block_id(2), gen_block_id(3));
    let mut tree = BlockTree {
        blocks: vec![TreeBlock { id: root, parent: root, output: 0u64, reconfig: false }],
    };
    tree.execute_block(b1, root, 1, false).unwrap();
    tree.execute_block(b2, root, 2, false).unwrap();
    tree.execute_block(b3, b1, 3, false).unwrap();
    tree.commit(b1);
    let ids: Vec<[u8; 32]> = tree.blocks.iter().map(|b| b.id).collect();
    assert_eq!(ids, vec![b1, b3]);
    assert_eq!(tree.plan(gen_block_id(4), b2).is_err(), true);
    assert_eq!(tree.execute_block(b3, b1, 9, false).unwrap(), 3);
}

#[test]
fn building_a_block_commits_it() {
    let root = [0u8; 32];
    let b1 = gen_block_id(1);
    let mut tree = BlockTree {
        blocks: vec![TreeBlock { id: root, parent: root, output: 0u64, reconfig: false }],
    };
    let txns = vec![
        BlockTxn::System,
        BlockTxn::User { sender: [3u8; 32], sequence_number: 4 },
        BlockTxn::System,
    ];
    let built = build_block(&mut tree, [9u8; 32], 41, 1000, 2, b1, &txns, vec![1, 2], 7u64, false, vec![5, 6]);
    assert_eq!(built.parent_id, [9u8; 32]);
    assert_eq!(built.height, 42);
    assert_eq!(built.data.1, b1);
    assert_eq!(built.data.2, root);
    assert_eq!(built.data.5, vec![5u8, 6]);
    assert_eq!(built.mempool_commits, vec![([3u8; 32], 4u64)]);
    assert_eq!(tree.blocks[0].id, b1);
    let b2 = gen_block_id(2);
    let wrong = inner_build_block(&mut tree, b2, b2, root, &txns, 8u64, false, false, vec![1]);
    assert!(wrong.is_err());
    assert_eq!(tree.blocks[0].id, b1);
    let ok = inner_build_block(&mut tree, b2, b2, b1, &txns, 8u64, false, false, vec![1]).ok().unwrap();
    assert_eq!(ok.output, 8);
    assert!(ok.reply.is_empty());
    assert_eq!(tree.blocks[0].id, b2);
}
