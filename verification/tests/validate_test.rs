//! Chain validator tests.

use state_manager::chain::{ChainView, Execution};
use state_manager::manager::StateManager;
use state_manager::types::{BlockHeader, Error, Inconsistency, Tipset};

fn block(cid: u64, miner: u64, epoch: u64, parents: Vec<u64>, state_root: u64, receipts: u64) -> BlockHeader {
    BlockHeader {
        cid,
        miner_address: miner,
        epoch,
        parents,
        state_root,
        message_receipts: receipts,
        parent_base_fee: 100,
    }
}

fn exec(state_root: u64, receipt_root: u64) -> Execution {
    Execution { applied: vec![], state_root, receipt_root }
}

/// A three-tipset chain whose recorded roots all match recomputation:
/// genesis records (100, 200), executing tipset 2 yields (111, 222), and
/// executing tipset 3 yields (333, 444).
fn clean_chain() -> ChainView {
    let genesis = Tipset { blocks: vec![block(1, 6, 0, vec![], 100, 200)] };
    let t1 = Tipset { blocks: vec![block(2, 7, 1, vec![1], 100, 200)] };
    let t2 = Tipset { blocks: vec![block(3, 8, 2, vec![2], 111, 222)] };
    ChainView {
        tipsets: vec![genesis, t1, t2],
        block_messages: vec![],
        receipts: vec![],
        actors: vec![],
        executions: vec![(vec![2], exec(111, 222)), (vec![3], exec(333, 444))],
        heaviest: Some(vec![3]),
    }
}

fn t(chain: &ChainView, cid_first: u64) -> Tipset {
    chain
        .tipsets
        .iter()
        .find(|ts| ts.blocks[0].cid == cid_first)
        .unwrap()
        .clone()
}

#[test]
fn clean_chain_validates() {
    let chain = clean_chain();
    let top = t(&chain, 3);
    let mut sm = StateManager::new(chain);
    assert_eq!(sm.validate_chain(&top), Ok(()));
    // One state computation per non-genesis tipset of the chain of length
    // three: the genesis short-circuit dispatches nothing.
    assert_eq!(sm.exec_count, 2);
    // Validating again costs nothing: every pair is cached.
    assert_eq!(sm.validate_chain(&top), Ok(()));
    assert_eq!(sm.exec_count, 2);
}

#[test]
fn corrupted_parent_state_fails_at_its_height() {
    let mut chain = clean_chain();
    // Corrupt the recorded parent-state root of the tipset at height 2.
    chain.tipsets[2].blocks[0].state_root = 999;
    let top = t(&chain, 3);
    let mut sm = StateManager::new(chain);
    assert_eq!(
        sm.validate_chain(&top),
        Err(Error::Inconsistent(Inconsistency::StateMismatch { height: 2 }))
    );
}

#[test]
fn corrupted_receipt_root_fails_at_its_height() {
    let mut chain = clean_chain();
    chain.tipsets[1].blocks[0].message_receipts = 999;
    let top = t(&chain, 3);
    let mut sm = StateManager::new(chain);
    assert_eq!(
        sm.validate_chain(&top),
        Err(Error::Inconsistent(Inconsistency::ReceiptMismatch { height: 1 }))
    );
}

#[test]
fn missing_ancestor_fails_validation() {
    let mut chain = clean_chain();
    // Remove the middle tipset: the ancestor walk cannot reach genesis.
    chain.tipsets.remove(1);
    let top = t(&chain, 3);
    let mut sm = StateManager::new(chain);
    assert_eq!(sm.validate_chain(&top), Err(Error::NotFound));
}

#[test]
fn non_decreasing_epochs_are_inconsistent() {
    // An ancestor recorded at the same height as its child: epochs must
    // decrease strictly towards genesis.
    let child = Tipset { blocks: vec![block(20, 7, 5, vec![21], 0, 0)] };
    let parent = Tipset { blocks: vec![block(21, 8, 5, vec![1], 0, 0)] };
    let chain = ChainView {
        tipsets: vec![child, parent],
        block_messages: vec![],
        receipts: vec![],
        actors: vec![],
        executions: vec![],
        heaviest: None,
    };
    let top = t(&chain, 20);
    let mut sm = StateManager::new(chain);
    assert_eq!(
        sm.validate_chain(&top),
        Err(Error::Inconsistent(Inconsistency::EpochOrder { height: 5 }))
    );
}

#[test]
fn validating_genesis_alone_succeeds() {
    let chain = clean_chain();
    let genesis = t(&chain, 1);
    let mut sm = StateManager::new(chain);
    assert_eq!(sm.validate_chain(&genesis), Ok(()));
    assert_eq!(sm.exec_count, 0);
}
