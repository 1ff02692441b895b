//! Message receipt resolution tests.

use state_manager::chain::ChainView;
use state_manager::manager::StateManager;
use state_manager::types::{
    ActorState, BlockHeader, Error, Inconsistency, Message, MessageReceipt, Tipset,
};

fn block(cid: u64, miner: u64, epoch: u64, parents: Vec<u64>, state_root: u64, receipts: u64) -> BlockHeader {
    BlockHeader {
        cid,
        miner_address: miner,
        epoch,
        parents,
        state_root,
        message_receipts: receipts,
        parent_base_fee: 100,
    }
}

fn msg(cid: u64, from: u64, sequence: u64) -> Message {
    Message { cid, from, to: 20, sequence, gas_limit: 1, value: 0 }
}

fn receipt(token: u64) -> MessageReceipt {
    MessageReceipt { exit_code: 0, return_data: token, gas_used: 42 }
}

/// A chain genesis <- T4 <- T5 <- T6 <- T7, where message 50 from sender 10
/// with sequence 5 sits in T4's block, so it reads as executed at T5 (a
/// tipset's executed messages are its parent's). The other blocks carry
/// unrelated messages of sender 11.
fn test_chain() -> ChainView {
    let genesis = Tipset { blocks: vec![block(1, 6, 0, vec![], 100, 200)] };
    let t4 = Tipset { blocks: vec![block(4, 7, 4, vec![1], 440, 400)] };
    let t5 = Tipset { blocks: vec![block(5, 7, 5, vec![4], 500, 550)] };
    let t6 = Tipset { blocks: vec![block(6, 7, 6, vec![5], 600, 660)] };
    let t7 = Tipset { blocks: vec![block(7, 7, 7, vec![6], 700, 770)] };
    ChainView {
        tipsets: vec![genesis, t4, t5, t6, t7],
        block_messages: vec![
            (4, vec![msg(50, 10, 5)]),
            (5, vec![msg(81, 11, 0)]),
            (6, vec![msg(82, 11, 1)]),
        ],
        receipts: vec![(400, vec![receipt(9)])],
        actors: vec![
            (700, vec![ActorState { address: 10, sequence: 6, balance: 0 }]),
            (600, vec![ActorState { address: 10, sequence: 6, balance: 0 }]),
            (500, vec![ActorState { address: 10, sequence: 6, balance: 0 }]),
        ],
        executions: vec![],
        heaviest: Some(vec![7]),
    }
}

fn t(chain: &ChainView, cid_first: u64) -> Tipset {
    chain
        .tipsets
        .iter()
        .find(|ts| ts.blocks[0].cid == cid_first)
        .unwrap()
        .clone()
}

#[test]
fn receipt_resolution_round_trip() {
    let chain = test_chain();
    let t5 = t(&chain, 5);
    let t7 = t(&chain, 7);
    let sm = StateManager::new(chain);
    // Resolved where it executed ...
    assert_eq!(sm.get_receipt(&t5, 50), Ok(receipt(9)));
    // ... and two tipsets later, via backward search, the same receipt.
    assert_eq!(sm.get_receipt(&t7, 50), Ok(receipt(9)));
}

#[test]
fn local_check_finds_receipt_by_position() {
    let chain = test_chain();
    let t5 = t(&chain, 5);
    let sm = StateManager::new(chain);
    let r = sm.tipset_executed_message(&t5, 50, 10, 5).unwrap();
    assert_eq!(r, Some(receipt(9)));
    // Nothing from this sender executed one tipset later.
    let t6 = t(&sm.chain, 6);
    assert_eq!(sm.tipset_executed_message(&t6, 50, 10, 5), Ok(None));
    // Genesis tipsets never contain executed user messages.
    let genesis = t(&sm.chain, 1);
    assert_eq!(sm.tipset_executed_message(&genesis, 50, 10, 5), Ok(None));
}

#[test]
fn duplicate_nonce_is_inconsistent() {
    let chain = test_chain();
    let t5 = t(&chain, 5);
    let sm = StateManager::new(chain);
    // Same sender and sequence, different content: a hard inconsistency,
    // not "not found".
    let r = sm.tipset_executed_message(&t5, 51, 10, 5);
    assert_eq!(r, Err(Error::Inconsistent(Inconsistency::DuplicateNonce)));
}

#[test]
fn backward_search_names_the_sighting_tipset() {
    let chain = test_chain();
    let t7 = t(&chain, 7);
    let t5 = t(&chain, 5);
    let sm = StateManager::new(chain);
    let (found_at, r) = sm.search_back_for_message(&t7, 10, 50, 5).unwrap().unwrap();
    assert_eq!(found_at, t5);
    assert_eq!(r, receipt(9));
}

#[test]
fn pruning_stops_backward_search() {
    // A deliberately sparse chain: nothing below B is resolvable, so any
    // walk deeper than the pruning stop would fail with an error rather
    // than report a clean miss.
    let genesis = Tipset { blocks: vec![block(1, 6, 0, vec![], 100, 200)] };
    let a = Tipset { blocks: vec![block(30, 7, 3, vec![1], 300, 330)] };
    let b = Tipset { blocks: vec![block(40, 7, 4, vec![30], 400, 440)] };
    let chain = ChainView {
        tipsets: vec![genesis, a, b],
        block_messages: vec![],
        receipts: vec![],
        actors: vec![(400, vec![ActorState { address: 12, sequence: 2, balance: 0 }])],
        executions: vec![],
        heaviest: Some(vec![40]),
    };
    let b = t(&chain, 40);
    let sm = StateManager::new(chain);
    // The sender's recorded sequence (2) is already below the target (9):
    // the message cannot have executed in any ancestor.
    assert_eq!(sm.search_back_for_message(&b, 12, 60, 9), Ok(None));
    // An account that does not exist yet prunes the same way.
    assert_eq!(sm.search_back_for_message(&b, 13, 61, 0), Ok(None));
}

#[test]
fn unknown_message_not_found() {
    let chain = test_chain();
    let t7 = t(&chain, 7);
    let sm = StateManager::new(chain);
    assert_eq!(sm.get_receipt(&t7, 99), Err(Error::NotFound));
    assert_eq!(sm.get_chain_message(50), Ok(msg(50, 10, 5)));
    assert_eq!(sm.get_chain_message(99), Err(Error::NotFound));
}

#[test]
fn messages_for_tipset_deduplicates() {
    // Two blocks of one tipset share a message: it is applied once, in
    // block order, first occurrence kept.
    let shared = msg(70, 10, 0);
    let t = Tipset {
        blocks: vec![block(100, 7, 1, vec![1], 0, 0), block(101, 8, 1, vec![1], 0, 0)],
    };
    let chain = ChainView {
        tipsets: vec![],
        block_messages: vec![
            (100, vec![shared, msg(71, 10, 1)]),
            (101, vec![shared, msg(72, 11, 0)]),
        ],
        receipts: vec![],
        actors: vec![],
        executions: vec![],
        heaviest: None,
    };
    let msgs = chain.messages_for_tipset(&t).unwrap();
    assert_eq!(msgs, vec![shared, msg(71, 10, 1), msg(72, 11, 0)]);
}
