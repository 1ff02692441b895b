//! Core data model: content identifiers, block headers, tipsets, messages,
//! receipts, head-change events and the error taxonomy.
//!
//! Content identifiers, addresses and root hashes are modelled as plain `u64`
//! tokens: the chain is content-addressed, so all the logic ever does with
//! them is compare them for equality and use them as lookup keys.

use vstd::prelude::*;

verus! {

/// A content identifier (a hash token).
pub type Cid = u64;

/// An actor address.
pub type Address = u64;

/// Monotonically increasing chain height of a tipset.
pub type ChainEpoch = u64;

/// The result of executing all messages of a tipset against its parent state:
/// (state root, receipt root).
pub type CidPair = (Cid, Cid);

/// A message submitted to the chain. Identified by (from, sequence, cid);
/// the remaining fields ride along for call planning.
#[derive(Clone, Copy, PartialEq, Eq, Debug)]
pub struct Message {
    /// Content identifier of the message.
    pub cid: Cid,
    /// Sender address.
    pub from: Address,
    /// Destination address.
    pub to: Address,
    /// Per-sender monotonically increasing sequence number (nonce).
    pub sequence: u64,
    /// Gas limit attached to the message.
    pub gas_limit: u64,
    /// Value transferred by the message.
    pub value: u64,
}

/// Outcome of one executed message, ordered identically to the executed
/// message list it was derived from. The returned bytes are modelled as a
/// content token.
#[derive(Clone, Copy, PartialEq, Eq, Debug)]
pub struct MessageReceipt {
    /// Exit status of the execution.
    pub exit_code: u64,
    /// Token standing for the returned bytes.
    pub return_data: u64,
    /// Gas consumed by the execution.
    pub gas_used: u64,
}

/// Full result of applying one message: the receipt plus the internal actor
/// error, which a bare receipt does not carry.
#[derive(Clone, Copy, PartialEq, Eq, Debug)]
pub struct ApplyRet {
    /// The receipt recorded for the message.
    pub msg_receipt: MessageReceipt,
    /// Internal actor error code, if the message failed inside the engine.
    pub act_error: Option<u64>,
}

/// The state of one actor under a given state root.
#[derive(Clone, Copy, PartialEq, Eq, Debug)]
pub struct ActorState {
    /// The actor's address.
    pub address: Address,
    /// The next sequence number the actor will use.
    pub sequence: u64,
    /// The actor's balance.
    pub balance: u64,
}

/// Result of invoking a message against a state without persisting changes.
#[derive(Clone, Copy, PartialEq, Eq, Debug)]
pub struct InvocResult {
    /// The message as it was executed (gas limit and sequence resolved).
    pub msg: Message,
    /// The receipt of the invocation, when one was produced.
    pub msg_rct: Option<MessageReceipt>,
    /// Internal actor error code, if the invocation failed.
    pub error: Option<u64>,
}

/// The ways recorded chain data can contradict itself.
#[derive(Clone, Copy, PartialEq, Eq, Debug)]
pub enum Inconsistency {
    /// Two messages from one sender share a sequence number but differ in
    /// content.
    DuplicateNonce,
    /// Two blocks of one tipset share a miner address.
    DuplicateMiner,
    /// A recorded parent-state root disagrees with recomputation at the
    /// given height.
    StateMismatch { height: ChainEpoch },
    /// A recorded receipt root disagrees with recomputation at the given
    /// height.
    ReceiptMismatch { height: ChainEpoch },
    /// An ancestor's recorded epoch is not below its child's: epochs must
    /// decrease strictly towards genesis.
    EpochOrder { height: ChainEpoch },
}

/// Error taxonomy of the state manager.
#[derive(Clone, Copy, PartialEq, Eq, Debug)]
pub enum Error {
    /// A tipset, block, message, actor or receipt is absent.
    NotFound,
    /// Recorded chain data contradicts itself.
    Inconsistent(Inconsistency),
    /// The execution engine failed to produce a result.
    ExecutionFailure,
    /// A head-change stream violated its protocol, or a required
    /// subscription is absent.
    ProtocolViolation,
    /// An internal hand-off between concurrent tasks broke. Never produced
    /// by the verified core; reserved for the runtime drivers around it.
    ChannelFailure,
}

/// Mathematical view of a block header.
pub struct BlockHeaderView {
    pub cid: Cid,
    pub miner_address: Address,
    pub epoch: ChainEpoch,
    pub parents: Seq<Cid>,
    pub state_root: Cid,
    pub message_receipts: Cid,
    pub parent_base_fee: u64,
}

/// A block header. `state_root` and `message_receipts` record the outcome of
/// executing an earlier tipset, as placed there by the chain's producer.
#[derive(PartialEq, Eq, Debug)]
pub struct BlockHeader {
    /// Content identifier of this block.
    pub cid: Cid,
    /// Address of the miner that produced the block.
    pub miner_address: Address,
    /// Height of the block.
    pub epoch: ChainEpoch,
    /// Key (ordered block cids) of the parent tipset.
    pub parents: Vec<Cid>,
    /// State root recorded in the header.
    pub state_root: Cid,
    /// Receipt root recorded in the header.
    pub message_receipts: Cid,
    /// Base fee carried over from the parent tipset.
    pub parent_base_fee: u64,
}

impl View for BlockHeader {
    type V = BlockHeaderView;

    open spec fn view(&self) -> BlockHeaderView {
        BlockHeaderView {
            cid: self.cid,
            miner_address: self.miner_address,
            epoch: self.epoch,
            parents: self.parents@,
            state_root: self.state_root,
            message_receipts: self.message_receipts,
            parent_base_fee: self.parent_base_fee,
        }
    }
}

impl Clone for BlockHeader {
    fn clone(&self) -> (r: Self)
        ensures
            r@ == self@,
    {
        let r = BlockHeader {
            cid: self.cid,
            miner_address: self.miner_address,
            epoch: self.epoch,
            parents: self.parents.clone(),
            state_root: self.state_root,
            message_receipts: self.message_receipts,
            parent_base_fee: self.parent_base_fee,
        };
        proof {
            assert(r.parents@ =~= self.parents@);
        }
        r
    }
}

/// Mathematical view of a tipset.
pub struct TipsetView {
    pub blocks: Seq<BlockHeaderView>,
}

impl TipsetView {
    /// A tipset is a non-empty set of blocks sharing epoch and parents.
    pub open spec fn wf(self) -> bool {
        &&& self.blocks.len() > 0
        &&& forall|i: int|
            0 <= i < self.blocks.len() ==> {
                &&& (#[trigger] self.blocks[i]).epoch == self.blocks[0].epoch
                &&& self.blocks[i].parents == self.blocks[0].parents
            }
    }

    /// Height shared by all blocks of the tipset.
    pub open spec fn epoch(self) -> ChainEpoch {
        self.blocks[0].epoch
    }

    /// The tipset's identity: the ordered cids of its blocks.
    pub open spec fn key(self) -> Seq<Cid> {
        self.blocks.map_values(|b: BlockHeaderView| b.cid)
    }

    /// Key of the parent tipset, shared by all blocks.
    pub open spec fn parents(self) -> Seq<Cid> {
        self.blocks[0].parents
    }

    /// State root recorded in the tipset's first block header.
    pub open spec fn parent_state(self) -> Cid {
        self.blocks[0].state_root
    }

    /// Receipt root recorded in the tipset's first block header.
    pub open spec fn receipts_root(self) -> Cid {
        self.blocks[0].message_receipts
    }

    /// Base fee recorded in the tipset's first block header.
    pub open spec fn base_fee(self) -> u64 {
        self.blocks[0].parent_base_fee
    }

    /// Two blocks of the tipset share a miner address.
    pub open spec fn has_duplicate_miner(self) -> bool {
        exists|i: int, j: int|
            0 <= i < j < self.blocks.len()
                && (#[trigger] self.blocks[i]).miner_address == (
            #[trigger] self.blocks[j]).miner_address
    }
}

/// An immutable set of blocks sharing the same parent set and epoch.
#[derive(PartialEq, Eq, Debug)]
pub struct Tipset {
    /// The block headers that make up the tipset.
    pub blocks: Vec<BlockHeader>,
}

impl View for Tipset {
    type V = TipsetView;

    open spec fn view(&self) -> TipsetView {
        TipsetView { blocks: self.blocks@.map_values(|b: BlockHeader| b@) }
    }
}

impl Clone for Tipset {
    fn clone(&self) -> (r: Self)
        ensures
            r@ == self@,
    {
        let mut blocks: Vec<BlockHeader> = Vec::new();
        let mut i: usize = 0;
        while i < self.blocks.len()
            invariant
                i <= self.blocks.len(),
                blocks@.len() == i as int,
                forall|k: int| 0 <= k < i ==> (#[trigger] blocks@[k])@ == self.blocks@[k]@,
            decreases self.blocks.len() - i,
        {
            blocks.push(self.blocks[i].clone());
            i = i + 1;
        }
        let r = Tipset { blocks };
        proof {
            assert forall|k: int| 0 <= k < r@.blocks.len() implies r@.blocks[k]
                == self@.blocks[k] by {
                assert(r.blocks@[k]@ == self.blocks@[k]@);
            }
            assert(r@.blocks =~= self@.blocks);
        }
        r
    }
}

impl Tipset {
    /// Height of the tipset.
    pub fn epoch(&self) -> (r: ChainEpoch)
        requires
            self@.wf(),
        ensures
            r == self@.epoch(),
    {
        self.blocks[0].epoch
    }

    /// The tipset's key: the ordered cids of its blocks.
    pub fn key(&self) -> (r: Vec<Cid>)
        ensures
            r@ == self@.key(),
    {
        let mut key: Vec<Cid> = Vec::new();
        let mut i: usize = 0;
        while i < self.blocks.len()
            invariant
                i <= self.blocks.len(),
                key@.len() == i as int,
                forall|k: int| 0 <= k < i ==> key@[k] == self.blocks@[k].cid,
            decreases self.blocks.len() - i,
        {
            key.push(self.blocks[i].cid);
            i = i + 1;
        }
        proof {
            assert forall|k: int| 0 <= k < self@.key().len() implies self@.key()[k] == key@[k] by {
                assert(self@.blocks[k] == self.blocks@[k]@);
            }
            assert(key@ =~= self@.key());
        }
        key
    }

    /// Key of the parent tipset.
    pub fn parents(&self) -> (r: &Vec<Cid>)
        requires
            self@.wf(),
        ensures
            r@ == self@.parents(),
    {
        &self.blocks[0].parents
    }

    /// State root recorded in the tipset's first block header.
    pub fn parent_state(&self) -> (r: Cid)
        requires
            self@.wf(),
        ensures
            r == self@.parent_state(),
    {
        self.blocks[0].state_root
    }

    /// Receipt root recorded in the tipset's first block header.
    pub fn receipts_root(&self) -> (r: Cid)
        requires
            self@.wf(),
        ensures
            r == self@.receipts_root(),
    {
        self.blocks[0].message_receipts
    }

    /// Runtime check that the tipset is well-formed, so unverified callers
    /// can establish [`TipsetView::wf`] before handing the tipset in.
    pub fn check_wf(&self) -> (r: bool)
        ensures
            r == self@.wf(),
    {
        if self.blocks.len() == 0 {
            return false;
        }
        let epoch0 = self.blocks[0].epoch;
        let mut j: usize = 1;
        while j < self.blocks.len()
            invariant
                1 <= j <= self.blocks@.len(),
                self.blocks@.len() > 0,
                epoch0 == self.blocks@[0].epoch,
                forall|b: int|
                    0 <= b < j ==> (#[trigger] self.blocks@[b]).epoch == self.blocks@[0].epoch
                        && self.blocks@[b].parents@ == self.blocks@[0].parents@,
            decreases self.blocks@.len() - j,
        {
            if self.blocks[j].epoch != epoch0 {
                proof {
                    assert(self@.blocks[j as int].epoch != self@.blocks[0].epoch);
                }
                return false;
            }
            if !crate::lookup::key_eq(&self.blocks[j].parents, &self.blocks[0].parents) {
                proof {
                    assert(self@.blocks[j as int].parents != self@.blocks[0].parents);
                }
                return false;
            }
            j = j + 1;
        }
        proof {
            assert forall|b: int| 0 <= b < self@.blocks.len() implies (
            #[trigger] self@.blocks[b]).epoch == self@.blocks[0].epoch && self@.blocks[b].parents
                == self@.blocks[0].parents by {
                assert(self@.blocks[b] == self.blocks@[b]@);
            }
            assert(self@.wf());
        }
        true
    }

    /// Base fee recorded in the tipset's first block header.
    pub fn base_fee(&self) -> (r: u64)
        requires
            self@.wf(),
        ensures
            r == self@.base_fee(),
    {
        self.blocks[0].parent_base_fee
    }

    /// Whether two blocks of the tipset share a miner address.
    pub fn has_duplicate_miner(&self) -> (r: bool)
        ensures
            r == self@.has_duplicate_miner(),
    {
        let n = self.blocks.len();
        let mut i: usize = 0;
        while i < n
            invariant
                i <= n,
                n == self.blocks.len(),
                forall|a: int, b: int|
                    0 <= a < b < self.blocks@.len() && a < i ==> (
                    #[trigger] self@.blocks[a]).miner_address != (
                    #[trigger] self@.blocks[b]).miner_address,
            decreases n - i,
        {
            let mut j: usize = i + 1;
            while j < n
                invariant
                    i < j <= n,
                    n == self.blocks.len(),
                    forall|b: int|
                        i < b < j ==> (#[trigger] self@.blocks[b]).miner_address
                            != self@.blocks[i as int].miner_address,
                decreases n - j,
            {
                if self.blocks[i].miner_address == self.blocks[j].miner_address {
                    proof {
                        let ii = i as int;
                        let jj = j as int;
                        assert((#[trigger] self@.blocks[ii]).miner_address == (
                        #[trigger] self@.blocks[jj]).miner_address);
                        assert(self@.has_duplicate_miner());
                    }
                    return true;
                }
                j = j + 1;
            }
            i = i + 1;
        }
        false
    }
}

/// A head-change event delivered on a chain-head subscription stream.
#[derive(PartialEq, Eq, Debug)]
pub enum HeadChange {
    /// Initial state on subscribe: the current head.
    Current(Tipset),
    /// A new head was adopted.
    Apply(Tipset),
    /// The head was rolled back.
    Revert(Tipset),
}

} // verus!
