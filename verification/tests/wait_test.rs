//! Wait-for-message protocol tests.

use state_manager::chain::ChainView;
use state_manager::manager::StateManager;
use state_manager::types::{
    ActorState, BlockHeader, Error, HeadChange, Message, MessageReceipt, Tipset,
};
use state_manager::wait::WaitStart;

fn block(cid: u64, miner: u64, epoch: u64, parents: Vec<u64>, state_root: u64, receipts: u64) -> BlockHeader {
    BlockHeader {
        cid,
        miner_address: miner,
        epoch,
        parents,
        state_root,
        message_receipts: receipts,
        parent_base_fee: 100,
    }
}

fn msg(cid: u64, from: u64, sequence: u64) -> Message {
    Message { cid, from, to: 20, sequence, gas_limit: 1, value: 0 }
}

fn receipt(token: u64) -> MessageReceipt {
    MessageReceipt { exit_code: 0, return_data: token, gas_used: 42 }
}

/// A chain genesis <- T4 <- T5 <- T6 <- T7 <- T8 <- T9 <- T10. Message 50
/// (sender 10, sequence 5) sits in T4's block (executed at T5); message 55
/// (sender 10, sequence 6) sits in T7's block (executed at T8, i.e. first
/// seen live when T8 is applied).
fn test_chain() -> ChainView {
    let genesis = Tipset { blocks: vec![block(1, 6, 0, vec![], 100, 200)] };
    let t4 = Tipset { blocks: vec![block(4, 7, 4, vec![1], 440, 400)] };
    let t5 = Tipset { blocks: vec![block(5, 7, 5, vec![4], 500, 550)] };
    let t6 = Tipset { blocks: vec![block(6, 7, 6, vec![5], 600, 660)] };
    let t7 = Tipset { blocks: vec![block(7, 7, 7, vec![6], 700, 707)] };
    let t8 = Tipset { blocks: vec![block(8, 7, 8, vec![7], 800, 880)] };
    let t9 = Tipset { blocks: vec![block(9, 7, 9, vec![8], 900, 990)] };
    let t10 = Tipset { blocks: vec![block(10, 7, 10, vec![9], 1000, 1010)] };
    ChainView {
        tipsets: vec![genesis, t4, t5, t6, t7, t8, t9, t10],
        block_messages: vec![
            (4, vec![msg(50, 10, 5)]),
            (5, vec![msg(81, 11, 0)]),
            (6, vec![msg(82, 11, 1)]),
            (7, vec![msg(55, 10, 6)]),
            (8, vec![]),
            (9, vec![]),
        ],
        receipts: vec![(400, vec![receipt(9)]), (707, vec![receipt(13)])],
        actors: vec![
            (700, vec![ActorState { address: 10, sequence: 6, balance: 0 }]),
            (600, vec![ActorState { address: 10, sequence: 6, balance: 0 }]),
            (500, vec![ActorState { address: 10, sequence: 0, balance: 0 }]),
        ],
        executions: vec![],
        heaviest: Some(vec![7]),
    }
}

fn t(chain: &ChainView, cid_first: u64) -> Tipset {
    chain
        .tipsets
        .iter()
        .find(|ts| ts.blocks[0].cid == cid_first)
        .unwrap()
        .clone()
}

const NEVER: usize = 1000;

#[test]
fn requires_subscription() {
    let sm = StateManager::new(test_chain());
    let events = vec![HeadChange::Current(t(&sm.chain, 7))];
    assert_eq!(sm.wait_for_message(&events, NEVER, 55, 0), Err(Error::ProtocolViolation));
}

#[test]
fn first_event_must_be_current() {
    let sm = StateManager::new_with_subscribers(test_chain());
    let events = vec![HeadChange::Apply(t(&sm.chain, 8))];
    assert_eq!(sm.wait_for_message(&events, NEVER, 55, 0), Err(Error::ProtocolViolation));
    assert_eq!(sm.wait_for_message(&vec![], NEVER, 55, 0), Err(Error::ProtocolViolation));
}

#[test]
fn unknown_message_fails() {
    let sm = StateManager::new_with_subscribers(test_chain());
    let events = vec![HeadChange::Current(t(&sm.chain, 7))];
    assert_eq!(sm.wait_for_message(&events, NEVER, 99, 0), Err(Error::NotFound));
}

#[test]
fn confidence_zero_returns_on_live_apply() {
    let sm = StateManager::new_with_subscribers(test_chain());
    let t8 = t(&sm.chain, 8);
    let events = vec![HeadChange::Current(t(&sm.chain, 7)), HeadChange::Apply(t8.clone())];
    // The message lands with the applied head and is returned at once.
    let (ts, r) = sm.wait_for_message(&events, NEVER, 55, 0).unwrap();
    assert_eq!(ts, Some(t8));
    assert_eq!(r, Some(receipt(13)));
}

#[test]
fn confidence_two_waits_for_depth() {
    let sm = StateManager::new_with_subscribers(test_chain());
    let t8 = t(&sm.chain, 8);
    // The sighting at T8 is held as a candidate; two further applied heads
    // without an intervening revert confirm it.
    let events = vec![
        HeadChange::Current(t(&sm.chain, 7)),
        HeadChange::Apply(t8.clone()),
        HeadChange::Apply(t(&sm.chain, 9)),
        HeadChange::Apply(t(&sm.chain, 10)),
    ];
    let (ts, r) = sm.wait_for_message(&events, NEVER, 55, 2).unwrap();
    assert_eq!(ts, Some(t8.clone()));
    assert_eq!(r, Some(receipt(13)));
    // Without the depth, the wait is still pending when the stream ends.
    let short = vec![
        HeadChange::Current(t(&sm.chain, 7)),
        HeadChange::Apply(t8.clone()),
        HeadChange::Apply(t(&sm.chain, 9)),
    ];
    assert_eq!(sm.wait_for_message(&short, NEVER, 55, 2), Ok((None, None)));
}

#[test]
fn reorg_invalidation_discards_candidate() {
    let sm = StateManager::new_with_subscribers(test_chain());
    let t8 = t(&sm.chain, 8);
    // A revert — even of an unrelated tipset — clears the held candidate,
    // so the depth reached afterwards no longer confirms anything.
    let events = vec![
        HeadChange::Current(t(&sm.chain, 7)),
        HeadChange::Apply(t8.clone()),
        HeadChange::Revert(t(&sm.chain, 5)),
        HeadChange::Apply(t(&sm.chain, 9)),
        HeadChange::Apply(t(&sm.chain, 10)),
    ];
    assert_eq!(sm.wait_for_message(&events, NEVER, 55, 2), Ok((None, None)));
}

#[test]
fn historical_sighting_found_at_snapshot() {
    let sm = StateManager::new_with_subscribers(test_chain());
    let t5 = t(&sm.chain, 5);
    // Message 50 already executed at the snapshot head: found by the
    // initial local check at confidence zero.
    let events = vec![HeadChange::Current(t5.clone())];
    let (ts, r) = sm.wait_for_message(&events, NEVER, 50, 0).unwrap();
    assert_eq!(ts, Some(t5));
    assert_eq!(r, Some(receipt(9)));
}

#[test]
fn initial_sighting_held_until_confident() {
    let sm = StateManager::new_with_subscribers(test_chain());
    let t5 = t(&sm.chain, 5);
    // At confidence 1 the snapshot sighting becomes the candidate and the
    // next applied head confirms it.
    let events = vec![HeadChange::Current(t5.clone()), HeadChange::Apply(t(&sm.chain, 6))];
    let (ts, r) = sm.wait_for_message(&events, NEVER, 50, 1).unwrap();
    assert_eq!(ts, Some(t5));
    assert_eq!(r, Some(receipt(9)));
}

#[test]
fn backward_search_result_accepted() {
    let sm = StateManager::new_with_subscribers(test_chain());
    let t5 = t(&sm.chain, 5);
    // The backward task finds message 50 at T5, deep enough below the
    // snapshot head T7 for confidence 1.
    let events = vec![HeadChange::Current(t(&sm.chain, 7)), HeadChange::Apply(t(&sm.chain, 8))];
    let (ts, r) = sm.wait_for_message(&events, 1, 50, 1).unwrap();
    assert_eq!(ts, Some(t5));
    assert_eq!(r, Some(receipt(9)));
}

#[test]
fn reverted_backward_sighting_ignored() {
    let sm = StateManager::new_with_subscribers(test_chain());
    // T5 is reverted before the backward result (a sighting at T5) arrives:
    // the sighting is not honored, and nothing else confirms the message.
    let events = vec![
        HeadChange::Current(t(&sm.chain, 7)),
        HeadChange::Revert(t(&sm.chain, 5)),
        HeadChange::Apply(t(&sm.chain, 8)),
        HeadChange::Apply(t(&sm.chain, 9)),
    ];
    assert_eq!(sm.wait_for_message(&events, 2, 50, 1), Ok((None, None)));
}

#[test]
fn step_machine_drives_like_the_event_driver() {
    // The pieces a streaming driver uses directly: begin, step, accept.
    let sm = StateManager::new_with_subscribers(test_chain());
    let first = HeadChange::Current(t(&sm.chain, 7));
    let mut st = match sm.wait_start(&first, 55, 2).unwrap() {
        WaitStart::Pending(st) => st,
        WaitStart::Found(_, _) => panic!("message cannot be on chain yet"),
    };
    // A live sighting is held as the candidate ...
    assert_eq!(sm.wait_step(&mut st, &HeadChange::Apply(t(&sm.chain, 8))).unwrap(), None);
    assert!(st.candidate.is_some());
    // ... and any revert clears it.
    assert_eq!(sm.wait_step(&mut st, &HeadChange::Revert(t(&sm.chain, 5))).unwrap(), None);
    assert!(st.candidate.is_none());
    // Honoring a backward miss reports the definite miss.
    let back = sm.search_back_for_message(&t(&sm.chain, 7), 10, 55, 6);
    assert_eq!(back, Ok(None));
    assert_eq!(sm.accept_back(&st, &back), Err(Error::NotFound));
}

#[test]
fn missed_backward_search_fails_the_wait() {
    let sm = StateManager::new_with_subscribers(test_chain());
    // Message 55 is not on chain below the snapshot head T7; when the
    // backward result arrives first, the wait reports the definite miss.
    let events = vec![HeadChange::Current(t(&sm.chain, 7)), HeadChange::Apply(t(&sm.chain, 8))];
    assert_eq!(sm.wait_for_message(&events, 1, 55, 0), Err(Error::NotFound));
}
