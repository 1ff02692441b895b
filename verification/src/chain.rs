//! Content-addressed view of the chain store and of the execution engine's
//! deterministic outcomes.
//!
//! The chain store and the execution engine are external collaborators; the
//! state manager only ever reads from them. [`ChainView`] holds what those
//! reads can return: tipsets by key, per-block message lists, receipt lists
//! by root, actor states by state root, and the outcome the deterministic
//! engine produces for each tipset (execution is content-addressed, so the
//! tipset key determines the engine's inputs and therefore its outcome).

use vstd::prelude::*;

use crate::lookup::{alist_find, alist_get, alist_get_k, key_eq};
use crate::types::{
    ActorState, Address, ApplyRet, BlockHeaderView, Cid, Error, Message, MessageReceipt, Tipset,
    TipsetView,
};

verus! {

/// One message applied by the execution engine, paired with its full result.
#[derive(Clone, Copy, PartialEq, Eq, Debug)]
pub struct AppliedMessage {
    /// The message, as executed.
    pub message: Message,
    /// The full apply result the engine produced for it.
    pub ret: ApplyRet,
}

/// Mathematical view of an execution outcome.
pub struct ExecutionView {
    pub applied: Seq<AppliedMessage>,
    pub state_root: Cid,
    pub receipt_root: Cid,
}

/// The outcome the execution engine produces for one tipset: the ordered
/// messages it applies, each with its result, and the roots it returns.
#[derive(PartialEq, Eq, Debug)]
pub struct Execution {
    /// Messages in the order the engine applies them.
    pub applied: Vec<AppliedMessage>,
    /// State root after applying all messages.
    pub state_root: Cid,
    /// Root of the ordered receipt list.
    pub receipt_root: Cid,
}

impl View for Execution {
    type V = ExecutionView;

    open spec fn view(&self) -> ExecutionView {
        ExecutionView { applied: self.applied@, state_root: self.state_root, receipt_root: self.receipt_root }
    }
}

/// A content-addressed view of the chain store and the execution engine.
#[derive(PartialEq, Eq, Debug)]
pub struct ChainView {
    /// The known tipsets, looked up by their key.
    pub tipsets: Vec<Tipset>,
    /// Messages of each block, by block cid, in on-chain order.
    pub block_messages: Vec<(Cid, Vec<Message>)>,
    /// Ordered receipt lists, by receipt root.
    pub receipts: Vec<(Cid, Vec<MessageReceipt>)>,
    /// Actor states, by state root.
    pub actors: Vec<(Cid, Vec<ActorState>)>,
    /// The execution engine's outcome for each tipset, by tipset key.
    pub executions: Vec<(Vec<Cid>, Execution)>,
    /// Key of the heaviest known tipset, if any.
    pub heaviest: Option<Vec<Cid>>,
}

/// First-match lookup of a tipset by key in a sequence of tipsets.
pub open spec fn tipset_seq_by_key(s: Seq<Tipset>, key: Seq<Cid>) -> Option<TipsetView>
    decreases s.len(),
{
    if s.len() == 0 {
        None
    } else if s[0]@.key() == key {
        Some(s[0]@)
    } else {
        tipset_seq_by_key(s.drop_first(), key)
    }
}

/// First actor with the given address in an actor list.
pub open spec fn actor_in(s: Seq<ActorState>, addr: Address) -> Option<ActorState>
    decreases s.len(),
{
    if s.len() == 0 {
        None
    } else if s[0].address == addr {
        Some(s[0])
    } else {
        actor_in(s.drop_first(), addr)
    }
}

/// Whether some message in the sequence carries the given cid.
pub open spec fn seq_has_cid(s: Seq<Message>, cid: Cid) -> bool {
    exists|i: int| 0 <= i < s.len() && (#[trigger] s[i]).cid == cid
}

/// Deduplication by message cid, keeping the first occurrence of each.
pub open spec fn dedup_by_cid(s: Seq<Message>) -> Seq<Message>
    decreases s.len(),
{
    if s.len() == 0 {
        Seq::empty()
    } else {
        let rest = dedup_by_cid(s.drop_last());
        if seq_has_cid(s.drop_last(), s.last().cid) {
            rest
        } else {
            rest.push(s.last())
        }
    }
}

impl ChainView {
    /// Tipset stored under the given key.
    pub open spec fn tipset_by_key(self, key: Seq<Cid>) -> Option<TipsetView> {
        tipset_seq_by_key(self.tipsets@, key)
    }

    /// Message list of the block with the given cid.
    pub open spec fn messages_of_block(self, block_cid: Cid) -> Option<Seq<Message>> {
        alist_get(self.block_messages@, block_cid)
    }

    /// Ordered receipt list stored under the given receipt root.
    pub open spec fn receipts_of(self, root: Cid) -> Option<Seq<MessageReceipt>> {
        alist_get(self.receipts@, root)
    }

    /// Actor list stored under the given state root.
    pub open spec fn actors_of(self, root: Cid) -> Option<Seq<ActorState>> {
        alist_get(self.actors@, root)
    }

    /// The actor with the given address under the given state root, when the
    /// state root itself is known.
    pub open spec fn actor_of(self, root: Cid, addr: Address) -> Option<ActorState> {
        match self.actors_of(root) {
            None => None,
            Some(s) => actor_in(s, addr),
        }
    }

    /// The execution engine's outcome for the tipset with the given key.
    pub open spec fn execution_of(self, key: Seq<Cid>) -> Option<ExecutionView> {
        alist_get_k(self.executions@, key)
    }

    /// Concatenation of the message lists of the given blocks, in block
    /// order; `None` when some block's messages are not in the store.
    pub open spec fn concat_block_messages(self, blocks: Seq<BlockHeaderView>) -> Option<
        Seq<Message>,
    >
        decreases blocks.len(),
    {
        if blocks.len() == 0 {
            Some(Seq::empty())
        } else {
            match (
                self.concat_block_messages(blocks.drop_last()),
                self.messages_of_block(blocks.last().cid),
            ) {
                (Some(head), Some(tail)) => Some(head + tail),
                _ => None,
            }
        }
    }

    /// The flat, ordered, deduplicated message list executed for a tipset:
    /// the blocks' messages in block order with repeated cids dropped.
    pub open spec fn messages_for_tipset_spec(self, ts: TipsetView) -> Option<Seq<Message>> {
        match self.concat_block_messages(ts.blocks) {
            Some(all) => Some(dedup_by_cid(all)),
            None => None,
        }
    }

    /// The heaviest tipset, resolved through the tipset table.
    pub open spec fn heaviest_spec(self) -> Option<TipsetView> {
        match self.heaviest {
            None => None,
            Some(k) => self.tipset_by_key(k@),
        }
    }

    /// Every stored tipset is well-formed.
    pub open spec fn wf(self) -> bool {
        forall|i: int| 0 <= i < self.tipsets@.len() ==> (#[trigger] self.tipsets@[i])@.wf()
    }

    /// Runtime check that every stored tipset is well-formed, so unverified
    /// callers can establish [`ChainView::wf`] before using the view.
    #[verifier::loop_isolation(false)]
    pub fn check_wf(&self) -> (r: bool)
        ensures
            r == self.wf(),
    {
        let mut i: usize = 0;
        while i < self.tipsets.len()
            invariant
                i <= self.tipsets@.len(),
                forall|j: int| 0 <= j < i ==> (#[trigger] self.tipsets@[j])@.wf(),
            decreases self.tipsets@.len() - i,
        {
            if !self.tipsets[i].check_wf() {
                proof {
                    assert(!(self.tipsets@[i as int]@.wf()));
                    assert(!self.wf());
                }
                return false;
            }
            i = i + 1;
        }
        true
    }

    /// Looks a tipset up by key. Relies on the chain store's tipset lookup;
    /// `NotFound` when the key is unknown.
    pub fn tipset_from_keys(&self, key: &Vec<Cid>) -> (r: Result<Tipset, Error>)
        ensures
            match self.tipset_by_key(key@) {
                Some(t) => r is Ok && r->Ok_0@ == t,
                None => r == Err::<Tipset, Error>(Error::NotFound),
            },
    {
        let mut i: usize = 0;
        proof {
            assert(self.tipsets@.skip(0) =~= self.tipsets@);
        }
        while i < self.tipsets.len()
            invariant
                i <= self.tipsets@.len(),
                tipset_seq_by_key(self.tipsets@.skip(i as int), key@) == tipset_seq_by_key(
                    self.tipsets@,
                    key@,
                ),
            decreases self.tipsets@.len() - i,
        {
            let tkey = self.tipsets[i].key();
            if key_eq(&tkey, key) {
                proof {
                    assert(self.tipsets@.skip(i as int)[0] == self.tipsets@[i as int]);
                }
                return Ok(self.tipsets[i].clone());
            }
            proof {
                assert(self.tipsets@.skip(i as int)[0] == self.tipsets@[i as int]);
                assert(self.tipsets@.skip(i as int).drop_first() =~= self.tipsets@.skip(
                    i as int + 1,
                ));
            }
            i = i + 1;
        }
        Err(Error::NotFound)
    }

    /// The receipt at the given ordinal position under the given receipt
    /// root. Relies on the chain store's receipt lookup; `None` when the
    /// root is unknown or the position is out of range.
    pub fn get_parent_receipt(&self, root: Cid, index: usize) -> (r: Option<MessageReceipt>)
        ensures
            r == match self.receipts_of(root) {
                Some(list) => if index < list.len() {
                    Some(list[index as int])
                } else {
                    None
                },
                None => None,
            },
    {
        match alist_find(&self.receipts, root) {
            Some(i) => {
                let list = &self.receipts[i].1;
                if index < list.len() {
                    Some(list[index])
                } else {
                    None
                }
            },
            None => None,
        }
    }

    /// The actor with the given address under the given state root.
    /// `NotFound` when the state root itself is unknown (the state could not
    /// be loaded, as opposed to the actor being definitely absent).
    #[verifier::loop_isolation(false)]
    pub fn actor_at(&self, state_root: Cid, addr: Address) -> (r: Result<
        Option<ActorState>,
        Error,
    >)
        ensures
            match self.actors_of(state_root) {
                Some(list) => r == Ok::<Option<ActorState>, Error>(actor_in(list, addr)),
                None => r == Err::<Option<ActorState>, Error>(Error::NotFound),
            },
    {
        match alist_find(&self.actors, state_root) {
            Some(i) => {
                let list = &self.actors[i].1;
                let mut j: usize = 0;
                proof {
                    assert(list@.skip(0) =~= list@);
                }
                while j < list.len()
                    invariant
                        j <= list@.len(),
                        actor_in(list@.skip(j as int), addr) == actor_in(list@, addr),
                    decreases list@.len() - j,
                {
                    if list[j].address == addr {
                        proof {
                            assert(list@.skip(j as int)[0] == list@[j as int]);
                        }
                        return Ok(Some(list[j]));
                    }
                    proof {
                        assert(list@.skip(j as int)[0] == list@[j as int]);
                        assert(list@.skip(j as int).drop_first() =~= list@.skip(j as int + 1));
                    }
                    j = j + 1;
                }
                Ok(None)
            },
            None => Err(Error::NotFound),
        }
    }

    /// The flat ordered message list executed for a tipset: all blocks'
    /// messages in block order, deduplicated by cid (a message carried by
    /// several blocks is applied once). `NotFound` when some block's
    /// messages are not in the store.
    #[verifier::loop_isolation(false)]
    pub fn messages_for_tipset(&self, ts: &Tipset) -> (r: Result<Vec<Message>, Error>)
        ensures
            match self.messages_for_tipset_spec(ts@) {
                Some(m) => r is Ok && r->Ok_0@ == m,
                None => r == Err::<Vec<Message>, Error>(Error::NotFound),
            },
    {
        let mut all: Vec<Message> = Vec::new();
        let mut i: usize = 0;
        proof {
            assert(ts@.blocks.subrange(0, 0) =~= Seq::<BlockHeaderView>::empty());
        }
        while i < ts.blocks.len()
            invariant
                i <= ts.blocks@.len(),
                ts@.blocks.len() == ts.blocks@.len(),
                self.concat_block_messages(ts@.blocks.subrange(0, i as int)) == Some(all@),
            decreases ts.blocks@.len() - i,
        {
            match alist_find(&self.block_messages, ts.blocks[i].cid) {
                Some(bi) => {
                    let msgs = &self.block_messages[bi].1;
                    let ghost prev = all@;
                    let mut m: usize = 0;
                    while m < msgs.len()
                        invariant
                            m <= msgs@.len(),
                            all@ == prev + msgs@.subrange(0, m as int),
                        decreases msgs@.len() - m,
                    {
                        all.push(msgs[m]);
                        proof {
                            assert(prev + msgs@.subrange(0, m as int + 1) =~= (prev
                                + msgs@.subrange(0, m as int)).push(msgs@[m as int]));
                        }
                        m = m + 1;
                    }
                    proof {
                        assert(msgs@.subrange(0, msgs@.len() as int) =~= msgs@);
                        let sub1 = ts@.blocks.subrange(0, i as int + 1);
                        assert(sub1.drop_last() =~= ts@.blocks.subrange(0, i as int));
                        assert(sub1.last() == ts@.blocks[i as int]);
                        assert(ts@.blocks[i as int].cid == ts.blocks@[i as int].cid);
                        assert(self.concat_block_messages(sub1) == Some(all@));
                    }
                },
                None => {
                    proof {
                        let whole = ts@.blocks;
                        assert(ts@.blocks[i as int].cid == ts.blocks@[i as int].cid);
                        lemma_concat_none(*self, whole, i as int);
                    }
                    return Err(Error::NotFound);
                },
            }
            i = i + 1;
        }
        proof {
            assert(ts@.blocks.subrange(0, ts@.blocks.len() as int) =~= ts@.blocks);
        }
        // Deduplicate by cid, keeping the first occurrence of each message.
        let mut out: Vec<Message> = Vec::new();
        let mut i: usize = 0;
        proof {
            assert(all@.subrange(0, 0) =~= Seq::<Message>::empty());
        }
        while i < all.len()
            invariant
                i <= all@.len(),
                out@ == dedup_by_cid(all@.subrange(0, i as int)),
            decreases all@.len() - i,
        {
            let mut seen = false;
            let mut j: usize = 0;
            while j < i
                invariant
                    j <= i < all@.len(),
                    seen == seq_has_cid(all@.subrange(0, j as int), all@[i as int].cid),
                decreases i - j,
            {
                if all[j].cid == all[i].cid {
                    proof {
                        let pre = all@.subrange(0, j as int + 1);
                        assert(pre[j as int] == all@[j as int]);
                        assert(seq_has_cid(pre, all@[i as int].cid));
                    }
                    seen = true;
                } else {
                    proof {
                        let pre0 = all@.subrange(0, j as int);
                        let pre1 = all@.subrange(0, j as int + 1);
                        assert(pre1.drop_last() =~= pre0);
                        assert forall|x: int|
                            0 <= x < pre1.len() && (#[trigger] pre1[x]).cid == all@[i as int].cid
                            implies seq_has_cid(pre0, all@[i as int].cid) by {
                            if x < j {
                                assert(pre0[x] == pre1[x]);
                            }
                        }
                    }
                }
                j = j + 1;
            }
            if !seen {
                out.push(all[i]);
            }
            proof {
                let sub1 = all@.subrange(0, i as int + 1);
                assert(sub1.drop_last() =~= all@.subrange(0, i as int));
                assert(sub1.last() == all@[i as int]);
            }
            i = i + 1;
        }
        proof {
            assert(all@.subrange(0, all@.len() as int) =~= all@);
        }
        Ok(out)
    }

    /// The heaviest known tipset. Relies on the chain store's head tracking;
    /// `None` when no head is known or its tipset is not in the store.
    pub fn heaviest_tipset(&self) -> (r: Option<Tipset>)
        ensures
            match self.heaviest_spec() {
                Some(t) => r is Some && r->0@ == t,
                None => r is None,
            },
    {
        match &self.heaviest {
            Some(k) => match self.tipset_from_keys(k) {
                Ok(t) => Some(t),
                Err(_) => None,
            },
            None => None,
        }
    }
}

/// A found tipset was found under its own key and is one of the stored
/// tipsets.
pub proof fn lemma_tipset_seq_by_key(s: Seq<Tipset>, key: Seq<Cid>)
    requires
        tipset_seq_by_key(s, key) is Some,
    ensures
        tipset_seq_by_key(s, key)->Some_0.key() == key,
        exists|i: int| 0 <= i < s.len() && (#[trigger] s[i])@ == tipset_seq_by_key(s, key)->Some_0,
    decreases s.len(),
{
    if s.len() > 0 {
        if s[0]@.key() == key {
            assert(s[0]@ == tipset_seq_by_key(s, key)->Some_0);
        } else {
            lemma_tipset_seq_by_key(s.drop_first(), key);
            let t = tipset_seq_by_key(s, key)->Some_0;
            let i = choose|i: int|
                0 <= i < s.drop_first().len() && (#[trigger] s.drop_first()[i])@ == t;
            assert(s[i + 1]@ == t);
        }
    }
}

/// Under a well-formed chain, a tipset found by key is well-formed and
/// carries the key it was found under.
pub proof fn lemma_tipset_lookup_wf(c: ChainView, key: Seq<Cid>)
    requires
        c.wf(),
        c.tipset_by_key(key) is Some,
    ensures
        c.tipset_by_key(key)->Some_0.wf(),
        c.tipset_by_key(key)->Some_0.key() == key,
{
    lemma_tipset_seq_by_key(c.tipsets@, key);
    let t = c.tipset_by_key(key)->Some_0;
    let i = choose|i: int| 0 <= i < c.tipsets@.len() && (#[trigger] c.tipsets@[i])@ == t;
    assert(c.tipsets@[i]@.wf());
}

/// When some block's messages are absent, the whole concatenation is absent.
proof fn lemma_concat_none(c: ChainView, blocks: Seq<BlockHeaderView>, i: int)
    requires
        0 <= i < blocks.len(),
        c.messages_of_block(blocks[i].cid) is None,
    ensures
        c.concat_block_messages(blocks) is None,
    decreases blocks.len(),
{
    if blocks.len() > 0 {
        if i == blocks.len() - 1 {
        } else {
            assert(blocks.drop_last()[i] == blocks[i]);
            lemma_concat_none(c, blocks.drop_last(), i);
        }
    }
}

} // verus!
