//! Data model tests.

use state_manager::chain::ChainView;
use state_manager::types::{BlockHeader, Tipset};

fn block(cid: u64, miner: u64, epoch: u64, parents: Vec<u64>) -> BlockHeader {
    BlockHeader {
        cid,
        miner_address: miner,
        epoch,
        parents,
        state_root: 100,
        message_receipts: 200,
        parent_base_fee: 7,
    }
}

#[test]
fn tipset_accessors() {
    let ts = Tipset { blocks: vec![block(3, 7, 5, vec![1, 2]), block(4, 8, 5, vec![1, 2])] };
    assert_eq!(ts.epoch(), 5);
    assert_eq!(ts.key(), vec![3, 4]);
    assert_eq!(ts.parents(), &vec![1, 2]);
    assert_eq!(ts.parent_state(), 100);
    assert_eq!(ts.receipts_root(), 200);
    assert_eq!(ts.base_fee(), 7);
    assert!(!ts.has_duplicate_miner());
    let clone = ts.clone();
    assert_eq!(clone, ts);
}

#[test]
fn duplicate_miner_detected() {
    let ts = Tipset { blocks: vec![block(3, 7, 5, vec![1]), block(4, 7, 5, vec![1])] };
    assert!(ts.has_duplicate_miner());
}

#[test]
fn chain_well_formedness_check() {
    let good = ChainView {
        tipsets: vec![Tipset { blocks: vec![block(1, 6, 0, vec![])] }, Tipset {
            blocks: vec![block(3, 7, 5, vec![1, 2]), block(4, 8, 5, vec![1, 2])],
        }],
        block_messages: vec![],
        receipts: vec![],
        actors: vec![],
        executions: vec![],
        heaviest: None,
    };
    assert!(good.check_wf());
    // An empty tipset is malformed.
    let empty = ChainView { tipsets: vec![Tipset { blocks: vec![] }], ..good };
    assert!(!empty.check_wf());
    // Blocks of one tipset must share their epoch ...
    let mixed_epochs = ChainView {
        tipsets: vec![Tipset { blocks: vec![block(3, 7, 5, vec![1]), block(4, 8, 6, vec![1])] }],
        ..empty
    };
    assert!(!mixed_epochs.check_wf());
    // ... and their parents.
    let mixed_parents = ChainView {
        tipsets: vec![Tipset { blocks: vec![block(3, 7, 5, vec![1]), block(4, 8, 5, vec![2])] }],
        ..mixed_epochs
    };
    assert!(!mixed_parents.check_wf());
}
