//! Call planning tests.

use state_manager::calls::{finish_call, DEFAULT_CALL_GAS_LIMIT};
use state_manager::chain::{ChainView, Execution};
use state_manager::manager::StateManager;
use state_manager::types::{
    ActorState, ApplyRet, BlockHeader, Error, Message, MessageReceipt, Tipset,
};

fn block(cid: u64, miner: u64, epoch: u64, parents: Vec<u64>, state_root: u64, receipts: u64) -> BlockHeader {
    BlockHeader {
        cid,
        miner_address: miner,
        epoch,
        parents,
        state_root,
        message_receipts: receipts,
        parent_base_fee: 77,
    }
}

fn test_chain() -> ChainView {
    let genesis = Tipset { blocks: vec![block(1, 6, 0, vec![], 100, 200)] };
    let t1 = Tipset { blocks: vec![block(2, 7, 1, vec![1], 100, 200)] };
    ChainView {
        tipsets: vec![genesis, t1],
        block_messages: vec![],
        receipts: vec![],
        actors: vec![(100, vec![ActorState { address: 10, sequence: 5, balance: 0 }])],
        executions: vec![(vec![2], Execution { applied: vec![], state_root: 111, receipt_root: 222 })],
        heaviest: Some(vec![2]),
    }
}

fn t(chain: &ChainView, cid_first: u64) -> Tipset {
    chain
        .tipsets
        .iter()
        .find(|ts| ts.blocks[0].cid == cid_first)
        .unwrap()
        .clone()
}

#[test]
fn plan_call_defaults_gas_and_resolves_sequence() {
    let chain = test_chain();
    let t1 = t(&chain, 2);
    let sm = StateManager::new(chain);
    let m = Message { cid: 90, from: 10, to: 20, sequence: 0, gas_limit: 0, value: 3 };
    let req = sm.plan_call(&m, Some(&t1)).unwrap();
    assert_eq!(req.msg.gas_limit, DEFAULT_CALL_GAS_LIMIT);
    assert_eq!(req.msg.gas_limit, 10000000000);
    assert_eq!(req.msg.sequence, 5);
    assert_eq!(req.msg.from, 10);
    assert_eq!(req.state_root, 100);
    assert_eq!(req.epoch, 1);
    // A set gas limit is kept.
    let m2 = Message { gas_limit: 123, ..m };
    let req2 = sm.plan_call(&m2, Some(&t1)).unwrap();
    assert_eq!(req2.msg.gas_limit, 123);
}

#[test]
fn plan_call_uses_heaviest_when_no_tipset_given() {
    let sm = StateManager::new(test_chain());
    let m = Message { cid: 90, from: 10, to: 20, sequence: 0, gas_limit: 1, value: 0 };
    let req = sm.plan_call(&m, None).unwrap();
    assert_eq!(req.epoch, 1);
    assert_eq!(req.state_root, 100);
    // An unknown sender cannot be resolved.
    let m2 = Message { from: 11, ..m };
    assert_eq!(sm.plan_call(&m2, None), Err(Error::NotFound));
    // Without a heaviest tipset nothing can be chosen.
    let mut bare = test_chain();
    bare.heaviest = None;
    let sm2 = StateManager::new(bare);
    assert_eq!(sm2.plan_call(&m, None), Err(Error::NotFound));
}

#[test]
fn plan_call_with_gas_uses_derived_state() {
    let chain = test_chain();
    let t1 = t(&chain, 2);
    let mut sm = StateManager::new(chain);
    let m = Message { cid: 90, from: 10, to: 20, sequence: 0, gas_limit: 1, value: 0 };
    let prior = vec![Message { cid: 91, from: 10, to: 21, sequence: 0, gas_limit: 1, value: 0 }];
    let req = sm.plan_call_with_gas(&m, &prior, Some(&t1)).unwrap();
    // The call stacks on the tipset's derived state, not its recorded one.
    assert_eq!(req.state_root, 111);
    assert_eq!(req.epoch, 1);
    assert_eq!(req.base_fee, 77);
    assert_eq!(req.msg, m);
    assert_eq!(req.prior, prior);
    // The derivation went through the cache and was counted.
    assert_eq!(sm.exec_count, 1);
}

#[test]
fn finish_call_wraps_apply_result() {
    let m = Message { cid: 90, from: 10, to: 20, sequence: 4, gas_limit: 1, value: 0 };
    let ret = ApplyRet {
        msg_receipt: MessageReceipt { exit_code: 0, return_data: 8, gas_used: 21 },
        act_error: Some(3),
    };
    let inv = finish_call(&m, &ret);
    assert_eq!(inv.msg, m);
    assert_eq!(inv.msg_rct, Some(ret.msg_receipt));
    assert_eq!(inv.error, Some(3));
}
