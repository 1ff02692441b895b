//! Message receipt resolution.
//!
//! Whether a message executed within a tipset is decided by a local check
//! against the tipset's parent (messages execute one tipset after they are
//! included), and otherwise by an iterative backward search through the
//! ancestor chain, pruned by the sender's recorded sequence number.

use vstd::prelude::*;

use crate::chain::{actor_in, ChainView};
use crate::manager::StateManager;
use crate::types::{
    Address, Cid, Error, Inconsistency, Message, MessageReceipt, Tipset, TipsetView,
};

verus! {

/// Outcome of scanning an executed message list backward for a sender's
/// sequence number.
pub enum ScanOutcome {
    /// The message was found at this ordinal position, content matching.
    Found { index: int },
    /// A message with the sender's sequence number exists but its content
    /// differs: a duplicate nonce.
    Mismatch,
    /// Nothing from the sender at or above the sequence number: sequence
    /// numbers only increase, so nothing earlier in scan order can match.
    Absent,
}

/// Backward scan of an executed message list: walking from the end, the
/// first message of the sender decides — its sequence equal to the target
/// means found (content matching) or a duplicate nonce (content differing);
/// a smaller sequence means the message cannot be here at all.
pub open spec fn scan_executed(
    msgs: Seq<Message>,
    from: Address,
    sequence: u64,
    cid: Cid,
) -> ScanOutcome
    decreases msgs.len(),
{
    if msgs.len() == 0 {
        ScanOutcome::Absent
    } else {
        let last = msgs.last();
        if last.from == from && last.sequence == sequence {
            if last.cid == cid {
                ScanOutcome::Found { index: msgs.len() - 1 }
            } else {
                ScanOutcome::Mismatch
            }
        } else if last.from == from && last.sequence < sequence {
            ScanOutcome::Absent
        } else {
            scan_executed(msgs.drop_last(), from, sequence, cid)
        }
    }
}

/// Whether the message (from, sequence, cid) executed in the given tipset:
/// the executed messages of a tipset are those of its parent, and their
/// receipts sit at the same ordinal position under the parent's recorded
/// receipt root. Genesis tipsets never contain executed user messages.
pub open spec fn local_check(
    c: ChainView,
    ts: TipsetView,
    cid: Cid,
    from: Address,
    sequence: u64,
) -> Result<Option<MessageReceipt>, Error> {
    if ts.epoch() == 0 {
        Ok(None)
    } else {
        match c.tipset_by_key(ts.parents()) {
            None => Err(Error::NotFound),
            Some(parent) => match c.messages_for_tipset_spec(parent) {
                None => Err(Error::NotFound),
                Some(msgs) => match scan_executed(msgs, from, sequence, cid) {
                    ScanOutcome::Absent => Ok(None),
                    ScanOutcome::Mismatch => Err(
                        Error::Inconsistent(Inconsistency::DuplicateNonce),
                    ),
                    ScanOutcome::Found { index } => match c.receipts_of(parent.receipts_root()) {
                        None => Err(Error::NotFound),
                        Some(rs) => if index < rs.len() {
                            Ok(Some(rs[index]))
                        } else {
                            Err(Error::NotFound)
                        },
                    },
                },
            },
        }
    }
}

/// Epoch of the tipset stored under `key`, as a termination measure for the
/// backward search.
pub open spec fn epoch_at(c: ChainView, key: Seq<Cid>) -> int {
    match c.tipset_by_key(key) {
        Some(t) => t.epoch() as int,
        None => 0,
    }
}

/// Backward search for the message (from, sequence, cid) starting at the
/// tipset stored under `key`: stop at genesis; stop with "not found" when
/// the sender's account at the current parent state does not exist yet or
/// its recorded sequence is already below the target (the message cannot
/// have executed in any ancestor); otherwise check the parent tipset and
/// recurse. A found result names the tipset the sighting belongs to.
pub open spec fn search_back_spec(
    c: ChainView,
    key: Seq<Cid>,
    from: Address,
    cid: Cid,
    sequence: u64,
) -> Result<Option<(TipsetView, MessageReceipt)>, Error>
    decreases epoch_at(c, key),
{
    match c.tipset_by_key(key) {
        None => Err(Error::NotFound),
        Some(cur) => if cur.epoch() == 0 {
            Ok(None)
        } else {
            match c.actors_of(cur.parent_state()) {
                None => Err(Error::NotFound),
                Some(list) => match actor_in(list, from) {
                    None => Ok(None),
                    Some(a) => if a.sequence < sequence {
                        Ok(None)
                    } else {
                        match c.tipset_by_key(cur.parents()) {
                            None => Err(Error::NotFound),
                            Some(parent) => if parent.epoch() >= cur.epoch() {
                                Err(
                                    Error::Inconsistent(
                                        Inconsistency::EpochOrder { height: cur.epoch() },
                                    ),
                                )
                            } else {
                                match local_check(c, parent, cid, from, sequence) {
                                    Err(e) => Err(e),
                                    Ok(Some(r)) => Ok(Some((parent, r))),
                                    Ok(None) => search_back_spec(
                                        c,
                                        cur.parents(),
                                        from,
                                        cid,
                                        sequence,
                                    ),
                                }
                            },
                        }
                    },
                },
            }
        },
    }
}

/// First message with the given cid in a message list.
pub open spec fn msg_in(s: Seq<Message>, cid: Cid) -> Option<Message>
    decreases s.len(),
{
    if s.len() == 0 {
        None
    } else if s[0].cid == cid {
        Some(s[0])
    } else {
        msg_in(s.drop_first(), cid)
    }
}

/// First message with the given cid across the stored per-block message
/// lists, in table order.
pub open spec fn message_by_cid_seq(s: Seq<(Cid, Vec<Message>)>, cid: Cid) -> Option<Message>
    decreases s.len(),
{
    if s.len() == 0 {
        None
    } else {
        match msg_in(s[0].1@, cid) {
            Some(m) => Some(m),
            None => message_by_cid_seq(s.drop_first(), cid),
        }
    }
}

/// The message stored under the given cid, if any block carries it.
pub open spec fn message_by_cid(c: ChainView, cid: Cid) -> Option<Message> {
    message_by_cid_seq(c.block_messages@, cid)
}

/// What resolving a receipt returns: the message is loaded by cid, checked
/// locally against the given tipset, and searched for backward through the
/// ancestors when the local check misses.
pub open spec fn get_receipt_spec(c: ChainView, ts: TipsetView, mcid: Cid) -> Result<
    MessageReceipt,
    Error,
> {
    match message_by_cid(c, mcid) {
        None => Err(Error::NotFound),
        Some(m) => match local_check(c, ts, mcid, m.from, m.sequence) {
            Err(e) => Err(e),
            Ok(Some(r)) => Ok(r),
            Ok(None) => match search_back_spec(c, ts.key(), m.from, mcid, m.sequence) {
                Err(e) => Err(e),
                Ok(Some((_t, rc))) => Ok(rc),
                Ok(None) => Err(Error::NotFound),
            },
        },
    }
}

impl StateManager {
    /// The message stored under the given cid. Relies on the chain store's
    /// message lookup; `NotFound` when no block carries it.
    #[verifier::loop_isolation(false)]
    pub fn get_chain_message(&self, cid: Cid) -> (r: Result<Message, Error>)
        ensures
            r == match message_by_cid(self.chain, cid) {
                Some(m) => Ok::<Message, Error>(m),
                None => Err::<Message, Error>(Error::NotFound),
            },
    {
        let table = &self.chain.block_messages;
        let mut i: usize = 0;
        proof {
            assert(table@.skip(0) =~= table@);
        }
        while i < table.len()
            invariant
                i <= table@.len(),
                message_by_cid_seq(table@.skip(i as int), cid) == message_by_cid_seq(table@, cid),
            decreases table@.len() - i,
        {
            let msgs = &table[i].1;
            let mut j: usize = 0;
            proof {
                assert(msgs@.skip(0) =~= msgs@);
            }
            while j < msgs.len()
                invariant
                    j <= msgs@.len(),
                    msg_in(msgs@.skip(j as int), cid) == msg_in(msgs@, cid),
                decreases msgs@.len() - j,
            {
                if msgs[j].cid == cid {
                    proof {
                        assert(msgs@.skip(j as int)[0] == msgs@[j as int]);
                        assert(table@.skip(i as int)[0] == table@[i as int]);
                    }
                    return Ok(msgs[j]);
                }
                proof {
                    assert(msgs@.skip(j as int)[0] == msgs@[j as int]);
                    assert(msgs@.skip(j as int).drop_first() =~= msgs@.skip(j as int + 1));
                }
                j = j + 1;
            }
            proof {
                assert(table@.skip(i as int)[0] == table@[i as int]);
                assert(msg_in(table@[i as int].1@, cid) is None);
                assert(table@.skip(i as int).drop_first() =~= table@.skip(i as int + 1));
            }
            i = i + 1;
        }
        Err(Error::NotFound)
    }

    /// Whether the message (from, sequence) with content `cid` executed in
    /// the given tipset, and with which receipt. `Ok(None)` means "not at
    /// this tipset"; a sender message with the same sequence but different
    /// content is a duplicate nonce and reported as an inconsistency, not
    /// as "not found".
    #[verifier::loop_isolation(false)]
    pub fn tipset_executed_message(
        &self,
        tipset: &Tipset,
        cid: Cid,
        from: Address,
        sequence: u64,
    ) -> (r: Result<Option<MessageReceipt>, Error>)
        requires
            self.wf(),
            tipset@.wf(),
        ensures
            r == local_check(self.chain, tipset@, cid, from, sequence),
    {
        if tipset.epoch() == 0 {
            return Ok(None);
        }
        let parent = match self.chain.tipset_from_keys(tipset.parents()) {
            Ok(t) => t,
            Err(e) => {
                return Err(e);
            },
        };
        proof {
            crate::chain::lemma_tipset_lookup_wf(self.chain, tipset@.parents());
        }
        let msgs = match self.chain.messages_for_tipset(&parent) {
            Ok(m) => m,
            Err(e) => {
                return Err(e);
            },
        };
        let mut i: usize = msgs.len();
        proof {
            assert(msgs@.subrange(0, msgs@.len() as int) =~= msgs@);
        }
        while i > 0
            invariant
                i <= msgs@.len(),
                scan_executed(msgs@.subrange(0, i as int), from, sequence, cid) == scan_executed(
                    msgs@,
                    from,
                    sequence,
                    cid,
                ),
            decreases i,
        {
            i = i - 1;
            let ghost pre = msgs@.subrange(0, i as int + 1);
            proof {
                assert(pre.last() == msgs@[i as int]);
                assert(pre.drop_last() =~= msgs@.subrange(0, i as int));
            }
            let m = msgs[i];
            if m.from == from && m.sequence == sequence {
                if m.cid == cid {
                    match self.chain.get_parent_receipt(parent.receipts_root(), i) {
                        Some(rc) => {
                            return Ok(Some(rc));
                        },
                        None => {
                            return Err(Error::NotFound);
                        },
                    }
                }
                return Err(Error::Inconsistent(Inconsistency::DuplicateNonce));
            }
            if m.from == from && m.sequence < sequence {
                return Ok(None);
            }
        }
        proof {
            assert(msgs@.subrange(0, 0) =~= Seq::<Message>::empty());
        }
        Ok(None)
    }

    /// Backward search for the message (from, sequence) with content `cid`,
    /// starting at the given tipset and walking parentward until the
    /// message is found, genesis is reached, or the sender's recorded
    /// sequence proves the message cannot have executed in any ancestor.
    #[verifier::loop_isolation(false)]
    pub fn search_back_for_message(
        &self,
        current: &Tipset,
        from: Address,
        cid: Cid,
        sequence: u64,
    ) -> (r: Result<Option<(Tipset, MessageReceipt)>, Error>)
        requires
            self.wf(),
        ensures
            match search_back_spec(self.chain, current@.key(), from, cid, sequence) {
                Ok(Some((t, rc))) => r is Ok && r->Ok_0 is Some && r->Ok_0->Some_0.0@ == t
                    && r->Ok_0->Some_0.1 == rc,
                Ok(None) => r == Ok::<Option<(Tipset, MessageReceipt)>, Error>(None),
                Err(e) => r == Err::<Option<(Tipset, MessageReceipt)>, Error>(e),
            },
    {
        let mut cur_key: Vec<Cid> = current.key();
        loop
            invariant
                self.wf(),
                search_back_spec(self.chain, cur_key@, from, cid, sequence) == search_back_spec(
                    self.chain,
                    current@.key(),
                    from,
                    cid,
                    sequence,
                ),
            decreases epoch_at(self.chain, cur_key@),
        {
            let cur = match self.chain.tipset_from_keys(&cur_key) {
                Ok(t) => t,
                Err(e) => {
                    return Err(e);
                },
            };
            proof {
                crate::chain::lemma_tipset_lookup_wf(self.chain, cur_key@);
            }
            if cur.epoch() == 0 {
                return Ok(None);
            }
            match self.chain.actor_at(cur.parent_state(), from) {
                Err(e) => {
                    return Err(e);
                },
                Ok(None) => {
                    return Ok(None);
                },
                Ok(Some(a)) => {
                    if a.sequence < sequence {
                        return Ok(None);
                    }
                },
            }
            let parent = match self.chain.tipset_from_keys(cur.parents()) {
                Ok(t) => t,
                Err(e) => {
                    return Err(e);
                },
            };
            proof {
                crate::chain::lemma_tipset_lookup_wf(self.chain, cur@.parents());
            }
            if parent.epoch() >= cur.epoch() {
                return Err(Error::Inconsistent(Inconsistency::EpochOrder { height: cur.epoch() }));
            }
            match self.tipset_executed_message(&parent, cid, from, sequence) {
                Err(e) => {
                    return Err(e);
                },
                Ok(Some(rc)) => {
                    return Ok(Some((parent, rc)));
                },
                Ok(None) => {},
            }
            cur_key = cur.parents().clone();
            proof {
                assert(cur_key@ =~= cur@.parents());
            }
        }
    }

    /// The receipt of the message with the given cid, resolved at the given
    /// tipset: first by the local check, then by backward search through
    /// the ancestors. `NotFound` when the message cannot be located
    /// anywhere in the tipset's ancestry.
    pub fn get_receipt(&self, tipset: &Tipset, msg: Cid) -> (r: Result<MessageReceipt, Error>)
        requires
            self.wf(),
            tipset@.wf(),
        ensures
            r == get_receipt_spec(self.chain, tipset@, msg),
    {
        let m = match self.get_chain_message(msg) {
            Ok(m) => m,
            Err(e) => {
                return Err(e);
            },
        };
        match self.tipset_executed_message(tipset, msg, m.from, m.sequence) {
            Err(e) => {
                return Err(e);
            },
            Ok(Some(rc)) => {
                return Ok(rc);
            },
            Ok(None) => {},
        }
        match self.search_back_for_message(tipset, m.from, msg, m.sequence) {
            Err(e) => Err(e),
            Ok(Some((_t, rc))) => Ok(rc),
            Ok(None) => Err(Error::NotFound),
        }
    }
}

/// A backward-search sighting names a stored, well-formed tipset.
pub proof fn lemma_search_back_found_wf(
    c: ChainView,
    key: Seq<Cid>,
    from: Address,
    cid: Cid,
    sequence: u64,
)
    requires
        c.wf(),
        search_back_spec(c, key, from, cid, sequence) matches Ok(Some(_)),
    ensures
        search_back_spec(c, key, from, cid, sequence)->Ok_0->Some_0.0.wf(),
    decreases epoch_at(c, key),
{
    let cur = c.tipset_by_key(key)->Some_0;
    if c.tipset_by_key(key) is Some && cur.epoch() != 0 {
        if c.actors_of(cur.parent_state()) is Some {
            let list = c.actors_of(cur.parent_state())->Some_0;
            match actor_in(list, from) {
                Some(a) => {
                    if a.sequence >= sequence {
                        if c.tipset_by_key(cur.parents()) is Some {
                            let parent = c.tipset_by_key(cur.parents())->Some_0;
                            if parent.epoch() < cur.epoch() {
                                match local_check(c, parent, cid, from, sequence) {
                                    Ok(Some(_)) => {
                                        crate::chain::lemma_tipset_lookup_wf(c, cur.parents());
                                    },
                                    Ok(None) => {
                                        lemma_search_back_found_wf(
                                            c,
                                            cur.parents(),
                                            from,
                                            cid,
                                            sequence,
                                        );
                                    },
                                    Err(_) => {},
                                }
                            }
                        }
                    }
                },
                None => {},
            }
        }
    }
}

/// Pruning correctness: when the sender's account at the starting tipset's
/// parent state does not exist, or its recorded sequence is already below
/// the target, the backward search stops right there with "not found" —
/// whatever lies deeper in the chain.
pub proof fn lemma_pruning_stops(
    c: ChainView,
    key: Seq<Cid>,
    from: Address,
    cid: Cid,
    sequence: u64,
)
    requires
        c.tipset_by_key(key) is Some,
        c.tipset_by_key(key)->Some_0.epoch() > 0,
        c.actors_of(c.tipset_by_key(key)->Some_0.parent_state()) is Some,
        match actor_in(c.actors_of(c.tipset_by_key(key)->Some_0.parent_state())->Some_0, from) {
            None => true,
            Some(a) => a.sequence < sequence,
        },
    ensures
        search_back_spec(c, key, from, cid, sequence) == Ok::<
            Option<(TipsetView, MessageReceipt)>,
            Error,
        >(None),
{
}

} // verus!
