//! Sequential chain-replay validator.
//!
//! Walks a tipset's ancestor chain back to genesis, then replays forward:
//! each tipset's recorded parent-state and receipt roots must equal the pair
//! freshly recomputed for its parent, and any divergence aborts with the
//! offending height. This cross-checks recorded roots against recomputation
//! over the whole chain, in O(chain length) with no concurrency.

use vstd::prelude::*;

use crate::chain::ChainView;
use crate::lookup::alist_get_k;
use crate::manager::{lemma_request_result_state, state_of_key, StateManager};
use crate::resolver::epoch_at;
use crate::types::{Cid, CidPair, Error, Inconsistency, Tipset, TipsetView};

verus! {

/// Validation of the chain below the tipset stored under `key`, replayed
/// from genesis: the genesis state is its own recorded pair; every later
/// tipset must record exactly the pair recomputed for its parent before its
/// own state is derived. The result is the recomputed pair for `key`, or
/// the first error walking up from genesis.
pub open spec fn validate_walk(c: ChainView, key: Seq<Cid>) -> Result<CidPair, Error>
    decreases epoch_at(c, key),
{
    match c.tipset_by_key(key) {
        None => Err(Error::NotFound),
        Some(ts) => if ts.epoch() == 0 {
            Ok((ts.parent_state(), ts.receipts_root()))
        } else {
            match c.tipset_by_key(ts.parents()) {
                None => Err(Error::NotFound),
                Some(p) => if p.epoch() >= ts.epoch() {
                    Err(Error::Inconsistent(Inconsistency::EpochOrder { height: ts.epoch() }))
                } else {
                    match validate_walk(c, ts.parents()) {
                        Err(e) => Err(e),
                        Ok((st, rc)) => if ts.parent_state() != st {
                            Err(
                                Error::Inconsistent(
                                    Inconsistency::StateMismatch { height: ts.epoch() },
                                ),
                            )
                        } else if ts.receipts_root() != rc {
                            Err(
                                Error::Inconsistent(
                                    Inconsistency::ReceiptMismatch { height: ts.epoch() },
                                ),
                            )
                        } else {
                            state_of_key(c, key)
                        },
                    }
                },
            }
        },
    }
}

/// Number of non-genesis tipsets on the ancestor path of `key`, as far as
/// the path is intact: how many engine dispatches a full validation of an
/// uncached chain performs (the genesis tipset dispatches none).
pub open spec fn ancestor_count(c: ChainView, key: Seq<Cid>) -> int
    decreases epoch_at(c, key),
{
    match c.tipset_by_key(key) {
        None => 0,
        Some(ts) => if ts.epoch() == 0 {
            0
        } else {
            match c.tipset_by_key(ts.parents()) {
                None => 1,
                Some(p) => if p.epoch() >= ts.epoch() {
                    1
                } else {
                    1 + ancestor_count(c, ts.parents())
                },
            }
        },
    }
}

/// A collected ancestor chain: each element is the tipset stored under its
/// own key, each next element is the previous one's parent, and epochs
/// decrease strictly towards the end.
pub open spec fn linked_chain(c: ChainView, l: Seq<TipsetView>) -> bool {
    &&& forall|j: int| 0 <= j < l.len() ==> c.tipset_by_key((#[trigger] l[j]).key()) == Some(l[j])
    &&& forall|j: int| 0 <= j < l.len() - 1 ==> (#[trigger] l[j]).parents() == l[j + 1].key()
    &&& forall|j: int| 0 <= j < l.len() - 1 ==> (#[trigger] l[j]).epoch() > l[j + 1].epoch()
    &&& forall|j: int| 0 <= j < l.len() - 1 ==> (#[trigger] l[j]).epoch() > 0
}

/// An error in validating an ancestor is the error of validating every
/// tipset above it on the collected chain.
proof fn lemma_walk_propagates(c: ChainView, l: Seq<TipsetView>, i: int)
    requires
        linked_chain(c, l),
        0 <= i < l.len(),
        validate_walk(c, l[i].key()) is Err,
    ensures
        validate_walk(c, l[0].key()) == validate_walk(c, l[i].key()),
    decreases i,
{
    if i > 0 {
        let child = l[i - 1];
        assert(c.tipset_by_key(child.key()) == Some(child));
        assert(child.parents() == l[i].key());
        assert(validate_walk(c, child.key()) == validate_walk(c, l[i].key()));
        lemma_walk_propagates(c, l, i - 1);
    }
}

impl StateManager {
    /// Collects the ancestor chain of the tipset stored under `start_key`,
    /// newest first, genesis last. Fails exactly as the validation walk
    /// does when an ancestor lookup fails or epochs do not decrease.
    #[verifier::loop_isolation(false)]
    fn collect_chain(&self, start_key: &Vec<Cid>) -> (r: Result<Vec<Tipset>, Error>)
        requires
            self.wf(),
        ensures
            match r {
                Ok(list) => {
                    let lv = list@.map_values(|t: Tipset| t@);
                    &&& lv.len() >= 1
                    &&& linked_chain(self.chain, lv)
                    &&& self.chain.tipset_by_key(start_key@) == Some(lv[0])
                    &&& lv[0].key() == start_key@
                    &&& lv[lv.len() - 1].epoch() == 0
                    &&& forall|a: int, b: int|
                        0 <= a < b < lv.len() ==> (#[trigger] lv[a]).epoch() > (
                        #[trigger] lv[b]).epoch()
                    &&& ancestor_count(self.chain, start_key@) == lv.len() - 1
                    &&& lv.len() - 1 <= epoch_at(self.chain, start_key@)
                },
                Err(e) => validate_walk(self.chain, start_key@) == Err::<CidPair, Error>(e),
            },
    {
        let ghost c = self.chain;
        let first = match self.chain.tipset_from_keys(start_key) {
            Ok(t) => t,
            Err(e) => {
                return Err(e);
            },
        };
        proof {
            crate::chain::lemma_tipset_lookup_wf(c, start_key@);
        }
        let mut cur = first;
        let mut list: Vec<Tipset> = Vec::new();
        list.push(cur.clone());
        proof {
            assert(list@.map_values(|t: Tipset| t@) =~= seq![cur@]);
        }
        while cur.epoch() > 0
            invariant
                list@.len() >= 1,
                cur@.wf(),
                list@.map_values(|t: Tipset| t@)[list@.len() - 1] == cur@,
                linked_chain(c, list@.map_values(|t: Tipset| t@)),
                c.tipset_by_key(start_key@) == Some(list@.map_values(|t: Tipset| t@)[0]),
                forall|a: int, b: int|
                    0 <= a < b < list@.len() ==> (#[trigger] list@[a])@.epoch() > (
                    #[trigger] list@[b])@.epoch(),
                ancestor_count(c, start_key@) == list@.len() - 1 + ancestor_count(c, cur@.key()),
                list@.len() - 1 + cur@.epoch() <= epoch_at(c, start_key@),
            decreases cur@.epoch(),
        {
            let ghost lv = list@.map_values(|t: Tipset| t@);
            let parent = match self.chain.tipset_from_keys(cur.parents()) {
                Ok(p) => p,
                Err(e) => {
                    proof {
                        assert(validate_walk(c, cur@.key()) == Err::<CidPair, Error>(
                            Error::NotFound,
                        ));
                        lemma_walk_propagates(c, lv, lv.len() - 1);
                    }
                    return Err(e);
                },
            };
            proof {
                crate::chain::lemma_tipset_lookup_wf(c, cur@.parents());
            }
            if parent.epoch() >= cur.epoch() {
                proof {
                    assert(validate_walk(c, cur@.key()) == Err::<CidPair, Error>(
                        Error::Inconsistent(Inconsistency::EpochOrder { height: cur@.epoch() }),
                    ));
                    lemma_walk_propagates(c, lv, lv.len() - 1);
                }
                return Err(Error::Inconsistent(Inconsistency::EpochOrder { height: cur.epoch() }));
            }
            list.push(parent.clone());
            proof {
                assert(list@.map_values(|t: Tipset| t@) =~= lv.push(parent@));
                assert(ancestor_count(c, cur@.key()) == 1 + ancestor_count(c, cur@.parents()));
            }
            cur = parent;
        }
        proof {
            assert(ancestor_count(c, cur@.key()) == 0);
        }
        Ok(list)
    }

    /// Validates the chain from genesis up to the given tipset: collects
    /// the ancestor chain, then replays it forward, cross-checking each
    /// recorded parent-state and receipt root against the freshly
    /// recomputed pair of its parent before deriving its own state. Any
    /// divergence aborts with the offending height. On a fresh manager a
    /// successful validation dispatches the engine exactly once per
    /// non-genesis ancestor.
    /// Replays a collected ancestor chain forward from genesis,
    /// cross-checking each recorded pair against recomputation.
    #[verifier::loop_isolation(false)]
    #[verifier::rlimit(100)]
    fn replay_collected(&mut self, list: &Vec<Tipset>) -> (r: Result<(), Error>)
        requires
            old(self).wf(),
            ({
                let lv = list@.map_values(|t: Tipset| t@);
                &&& lv.len() >= 1
                &&& linked_chain(old(self).chain, lv)
                &&& lv[lv.len() - 1].epoch() == 0
                &&& forall|a: int, b: int|
                    0 <= a < b < lv.len() ==> (#[trigger] lv[a]).epoch() > (
                    #[trigger] lv[b]).epoch()
            }),
            old(self).exec_count + list@.len() <= u64::MAX,
        ensures
            final(self).wf(),
            final(self).chain == old(self).chain,
            final(self).subscriber == old(self).subscriber,
            r == (match validate_walk(
                old(self).chain,
                list@.map_values(|t: Tipset| t@)[0].key(),
            ) {
                Ok(_) => Ok::<(), Error>(()),
                Err(e) => Err::<(), Error>(e),
            }),
            old(self).exec_count <= final(self).exec_count <= old(self).exec_count + list@.len(),
            old(self).cache@.len() == 0 && r is Ok ==> final(self).exec_count == old(
                self,
            ).exec_count + list@.len() - 1,
    {
        let ghost c = self.chain;
        let ghost exec0 = self.exec_count;
        let ghost lv = list@.map_values(|t: Tipset| t@);
        let glen = list.len();
        let genesis = &list[glen - 1];
        proof {
            assert(genesis@ == lv[glen - 1]);
            crate::chain::lemma_tipset_lookup_wf(c, lv[glen - 1].key());
        }
        let mut last_state: Cid = genesis.parent_state();
        let mut last_receipt: Cid = genesis.receipts_root();
        let mut idx: usize = glen;
        while idx > 0
            invariant
                idx <= glen,
                self.wf(),
                self.chain == c,
                self.subscriber == old(self).subscriber,
                idx < glen ==> validate_walk(c, lv[idx as int].key()) == Ok::<CidPair, Error>(
                    (last_state, last_receipt),
                ),
                idx == glen ==> last_state == lv[glen - 1].parent_state() && last_receipt == lv[
                    glen - 1].receipts_root(),
                exec0 <= self.exec_count <= exec0 + (glen - idx),
                old(self).cache@.len() == 0 ==> forall|j: int|
                    0 <= j < idx ==> alist_get_k(self.cache@, (#[trigger] lv[j]).key()) is None,
                old(self).cache@.len() == 0 ==> self.exec_count == exec0 + (if idx < glen {
                    (glen - 1 - idx) as int
                } else {
                    0int
                }),
            decreases idx,
        {
            idx = idx - 1;
            let t = &list[idx];
            proof {
                assert(t@ == lv[idx as int]);
                assert(c.tipset_by_key(lv[idx as int].key()) == Some(lv[idx as int]));
                crate::chain::lemma_tipset_lookup_wf(c, lv[idx as int].key());
            }
            if idx < glen - 1 {
                // A non-genesis tipset must record exactly the pair
                // recomputed for its parent.
                if t.parent_state() != last_state {
                    proof {
                        assert(validate_walk(c, lv[idx as int].key()) == Err::<CidPair, Error>(
                            Error::Inconsistent(
                                Inconsistency::StateMismatch { height: lv[idx as int].epoch() },
                            ),
                        ));
                        lemma_walk_propagates(c, lv, idx as int);
                    }
                    return Err(
                        Error::Inconsistent(Inconsistency::StateMismatch { height: t.epoch() }),
                    );
                }
                if t.receipts_root() != last_receipt {
                    proof {
                        assert(validate_walk(c, lv[idx as int].key()) == Err::<CidPair, Error>(
                            Error::Inconsistent(
                                Inconsistency::ReceiptMismatch { height: lv[idx as int].epoch() },
                            ),
                        ));
                        lemma_walk_propagates(c, lv, idx as int);
                    }
                    return Err(
                        Error::Inconsistent(Inconsistency::ReceiptMismatch { height: t.epoch() }),
                    );
                }
            }
            let ghost pre_sm = *self;
            let pair = match self.tipset_state(t) {
                Ok(p) => p,
                Err(e) => {
                    proof {
                        lemma_request_result_state(pre_sm, lv[idx as int].key());
                        assert(validate_walk(c, lv[idx as int].key()) == Err::<CidPair, Error>(e));
                        lemma_walk_propagates(c, lv, idx as int);
                    }
                    return Err(e);
                },
            };
            proof {
                lemma_request_result_state(pre_sm, lv[idx as int].key());
                assert(state_of_key(c, lv[idx as int].key()) == Ok::<CidPair, Error>(pair));
                assert(validate_walk(c, lv[idx as int].key()) == Ok::<CidPair, Error>(pair));
                if old(self).cache@.len() == 0 {
                    // Keys of distinct chain positions differ, so filling
                    // this entry leaves the unprocessed ones uncached.
                    assert forall|j: int| 0 <= j < idx implies alist_get_k(
                        self.cache@,
                        (#[trigger] lv[j]).key(),
                    ) is None by {
                        if lv[j].key() == lv[idx as int].key() {
                            assert(lv[j] == lv[idx as int]);
                            assert(list@[j]@.epoch() > list@[idx as int]@.epoch());
                            assert(false);
                        }
                    }
                }
            }
            last_state = pair.0;
            last_receipt = pair.1;
        }
        Ok(())
    }

    /// Validates the chain from genesis up to the given tipset: collects
    /// the ancestor chain, then replays it forward, cross-checking each
    /// recorded parent-state and receipt root against the freshly
    /// recomputed pair of its parent before deriving its own state. Any
    /// divergence aborts with the offending height. On a fresh manager a
    /// successful validation dispatches the engine exactly once per
    /// non-genesis ancestor.
    pub fn validate_chain(&mut self, ts: &Tipset) -> (r: Result<(), Error>)
        requires
            old(self).wf(),
            old(self).exec_count + epoch_at(old(self).chain, ts@.key()) + 1 <= u64::MAX,
        ensures
            final(self).wf(),
            final(self).chain == old(self).chain,
            final(self).subscriber == old(self).subscriber,
            r == (match validate_walk(old(self).chain, ts@.key()) {
                Ok(_) => Ok::<(), Error>(()),
                Err(e) => Err::<(), Error>(e),
            }),
            old(self).exec_count <= final(self).exec_count,
            old(self).cache@.len() == 0 && r is Ok ==> final(self).exec_count == old(
                self,
            ).exec_count + ancestor_count(old(self).chain, ts@.key()),
    {
        let start_key = ts.key();
        let list = match self.collect_chain(&start_key) {
            Ok(l) => l,
            Err(e) => {
                return Err(e);
            },
        };
        self.replay_collected(&list)
    }
}

} // verus!
