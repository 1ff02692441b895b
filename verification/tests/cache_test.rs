//! State cache and transition orchestrator tests.

use state_manager::chain::{AppliedMessage, ChainView, Execution};
use state_manager::manager::{ComputeOutcome, StateManager};
use state_manager::types::{
    ApplyRet, BlockHeader, Error, Inconsistency, Message, MessageReceipt, Tipset,
};

fn block(cid: u64, miner: u64, epoch: u64, parents: Vec<u64>, state_root: u64, receipts: u64) -> BlockHeader {
    BlockHeader {
        cid,
        miner_address: miner,
        epoch,
        parents,
        state_root,
        message_receipts: receipts,
        parent_base_fee: 100,
    }
}

fn msg(cid: u64, from: u64, sequence: u64) -> Message {
    Message { cid, from, to: 20, sequence, gas_limit: 1, value: 0 }
}

fn receipt(token: u64) -> MessageReceipt {
    MessageReceipt { exit_code: 0, return_data: token, gas_used: 42 }
}

/// Genesis (cid 1) with two children at epoch 1: tipset 2 and tipset 3,
/// plus a duplicate-miner tipset (cids 8 and 9) and an execution-less
/// tipset (cid 5).
fn test_chain() -> ChainView {
    let genesis = Tipset { blocks: vec![block(1, 6, 0, vec![], 100, 200)] };
    let t1 = Tipset { blocks: vec![block(2, 7, 1, vec![1], 100, 200)] };
    let t2 = Tipset { blocks: vec![block(3, 8, 1, vec![1], 100, 200)] };
    let t_dup = Tipset {
        blocks: vec![block(8, 7, 1, vec![1], 100, 200), block(9, 7, 1, vec![1], 100, 200)],
    };
    let t_lost = Tipset { blocks: vec![block(5, 9, 1, vec![1], 100, 200)] };
    let m = msg(50, 10, 0);
    let exec1 = Execution {
        applied: vec![AppliedMessage {
            message: m,
            ret: ApplyRet { msg_receipt: receipt(9), act_error: None },
        }],
        state_root: 111,
        receipt_root: 222,
    };
    let exec2 = Execution { applied: vec![], state_root: 333, receipt_root: 444 };
    ChainView {
        tipsets: vec![genesis, t1, t2, t_dup, t_lost],
        block_messages: vec![],
        receipts: vec![],
        actors: vec![(100, vec![])],
        executions: vec![(vec![2], exec1), (vec![3], exec2)],
        heaviest: Some(vec![2]),
    }
}

fn t(chain: &ChainView, cid_first: u64) -> Tipset {
    chain
        .tipsets
        .iter()
        .find(|ts| ts.blocks[0].cid == cid_first)
        .unwrap()
        .clone()
}

#[test]
fn cache_idempotence() {
    let chain = test_chain();
    let t1 = t(&chain, 2);
    let mut sm = StateManager::new(chain);
    let r1 = sm.tipset_state(&t1).unwrap();
    assert_eq!(r1, (111, 222));
    assert_eq!(sm.exec_count, 1);
    // A second request returns the same pair without dispatching again.
    let r2 = sm.tipset_state(&t1).unwrap();
    assert_eq!(r2, r1);
    assert_eq!(sm.exec_count, 1);
    let r3 = sm.tipset_state(&t1).unwrap();
    assert_eq!(r3, r1);
    assert_eq!(sm.exec_count, 1);
}

#[test]
fn cache_key_independence() {
    let chain = test_chain();
    let t1 = t(&chain, 2);
    let t2 = t(&chain, 3);
    // Requests for distinct tipsets do not disturb each other: each is
    // derived once, to its own pair, in either order.
    let mut sm = StateManager::new(test_chain());
    assert_eq!(sm.tipset_state(&t1).unwrap(), (111, 222));
    assert_eq!(sm.tipset_state(&t2).unwrap(), (333, 444));
    assert_eq!(sm.tipset_state(&t1).unwrap(), (111, 222));
    assert_eq!(sm.exec_count, 2);
    let mut sm2 = StateManager::new(chain);
    assert_eq!(sm2.tipset_state(&t2).unwrap(), (333, 444));
    assert_eq!(sm2.tipset_state(&t1).unwrap(), (111, 222));
    assert_eq!(sm2.exec_count, 2);
}

#[test]
fn genesis_short_circuit() {
    let chain = test_chain();
    let genesis = t(&chain, 1);
    let mut sm = StateManager::new(chain);
    // The genesis state is its own recorded pair, with zero engine
    // dispatches.
    let r = sm.tipset_state(&genesis).unwrap();
    assert_eq!(r, (100, 200));
    assert_eq!(sm.exec_count, 0);
    let r2 = sm.tipset_state(&genesis).unwrap();
    assert_eq!(r2, (100, 200));
    assert_eq!(sm.exec_count, 0);
}

#[test]
fn duplicate_miner_rejection() {
    let chain = test_chain();
    let t_dup = t(&chain, 8);
    let mut sm = StateManager::new(chain);
    let r = sm.tipset_state(&t_dup);
    assert_eq!(r, Err(Error::Inconsistent(Inconsistency::DuplicateMiner)));
    // Rejected before any execution was attempted.
    assert_eq!(sm.exec_count, 0);
}

#[test]
fn unknown_tipset_not_found() {
    let chain = test_chain();
    let mut sm = StateManager::new(chain);
    let stranger = Tipset { blocks: vec![block(99, 9, 4, vec![1], 0, 0)] };
    assert_eq!(sm.tipset_state(&stranger), Err(Error::NotFound));
    assert_eq!(sm.exec_count, 0);
}

#[test]
fn failed_computation_is_not_cached() {
    let chain = test_chain();
    let t_lost = t(&chain, 5);
    let mut sm = StateManager::new(chain);
    // The engine has no outcome for this tipset: the request fails and the
    // entry stays empty, so a later request retries (and dispatches again).
    assert_eq!(sm.tipset_state(&t_lost), Err(Error::ExecutionFailure));
    assert_eq!(sm.exec_count, 1);
    assert_eq!(sm.tipset_state(&t_lost), Err(Error::ExecutionFailure));
    assert_eq!(sm.exec_count, 2);
}

#[test]
fn compute_watch_halts_execution() {
    let chain = test_chain();
    let t1 = t(&chain, 2);
    let mut sm = StateManager::new(chain);
    // Watching the applied message halts execution with its full result.
    let r = sm.compute_tipset_state(&t1, Some(50)).unwrap();
    match r {
        ComputeOutcome::Halted { message, ret } => {
            assert_eq!(message, msg(50, 10, 0));
            assert_eq!(ret.msg_receipt, receipt(9));
            assert_eq!(ret.act_error, None);
        }
        ComputeOutcome::Completed(_) => panic!("expected a halt"),
    }
    // Watching an unknown message completes normally.
    let r2 = sm.compute_tipset_state(&t1, Some(99)).unwrap();
    assert_eq!(r2, ComputeOutcome::Completed((111, 222)));
}

#[test]
fn replay_returns_apply_result() {
    let chain = test_chain();
    let t1 = t(&chain, 2);
    let mut sm = StateManager::new(chain);
    let (m, ret) = sm.replay(&t1, 50).unwrap();
    assert_eq!(m, msg(50, 10, 0));
    assert_eq!(ret.msg_receipt, receipt(9));
    // A message the execution never applies is not found.
    assert_eq!(sm.replay(&t1, 99), Err(Error::NotFound));
    // Replay does not fill the cache: a state request still dispatches.
    let before = sm.exec_count;
    assert_eq!(sm.tipset_state(&t1).unwrap(), (111, 222));
    assert_eq!(sm.exec_count, before + 1);
}

#[test]
fn balances_from_actor_state() {
    let genesis = Tipset { blocks: vec![block(1, 6, 0, vec![], 100, 200)] };
    let chain = ChainView {
        tipsets: vec![genesis],
        block_messages: vec![],
        receipts: vec![],
        actors: vec![(100, vec![state_manager::types::ActorState {
            address: 10,
            sequence: 5,
            balance: 77,
        }])],
        executions: vec![],
        heaviest: Some(vec![1]),
    };
    let sm = StateManager::new(chain);
    assert_eq!(sm.get_balance(10, 100), Ok(77));
    assert_eq!(sm.get_balance(11, 100), Err(Error::NotFound));
    assert_eq!(sm.get_balance(10, 999), Err(Error::NotFound));
    assert_eq!(sm.get_heaviest_balance(10), Ok(77));
    let actor = sm.get_actor(10, 100).unwrap().unwrap();
    assert_eq!(actor.sequence, 5);
    assert_eq!(sm.get_actor(11, 100), Ok(None));
}
