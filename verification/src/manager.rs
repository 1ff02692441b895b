//! State cache and transition orchestrator.
//!
//! [`StateManager`] owns a content-addressed view of the chain and a cache
//! from tipset key to the derived (state root, receipt root) pair. Each pair
//! is derived at most once per key: a filled entry is returned as is, and a
//! failed derivation leaves no entry behind, so a later request retries.
//! `exec_count` counts every dispatch to the execution engine, so callers
//! can observe that cached and short-circuited requests run nothing.

use vstd::prelude::*;

use crate::chain::{AppliedMessage, ChainView};
use crate::lookup::{alist_find_k, alist_get_k, lemma_alist_push_k};
use crate::types::{ApplyRet, Cid, CidPair, Error, Inconsistency, Message, Tipset};

verus! {

/// Outcome of driving the execution engine over one tipset.
#[derive(Clone, Copy, PartialEq, Eq, Debug)]
pub enum ComputeOutcome {
    /// The engine applied all messages and returned the two roots.
    Completed(CidPair),
    /// A watched message was seen; the remaining execution was abandoned
    /// and its full apply result captured.
    Halted { message: Message, ret: ApplyRet },
}

/// First applied message carrying the watched cid.
pub open spec fn first_watched(s: Seq<AppliedMessage>, watch: Cid) -> Option<AppliedMessage>
    decreases s.len(),
{
    if s.len() == 0 {
        None
    } else if s[0].message.cid == watch {
        Some(s[0])
    } else {
        first_watched(s.drop_first(), watch)
    }
}

/// The state transition recorded for the tipset stored under `key`: its own
/// recorded roots for the genesis tipset, otherwise the execution engine's
/// outcome, guarded by the duplicate-miner and ancestor-lookup checks.
pub open spec fn state_of_key(c: ChainView, key: Seq<Cid>) -> Result<CidPair, Error> {
    match c.tipset_by_key(key) {
        None => Err(Error::NotFound),
        Some(ts) => if ts.epoch() == 0 {
            Ok((ts.parent_state(), ts.receipts_root()))
        } else if ts.has_duplicate_miner() {
            Err(Error::Inconsistent(Inconsistency::DuplicateMiner))
        } else if c.tipset_by_key(ts.parents()) is None {
            Err(Error::NotFound)
        } else {
            match c.execution_of(key) {
                None => Err(Error::ExecutionFailure),
                Some(e) => Ok((e.state_root, e.receipt_root)),
            }
        },
    }
}

/// How many engine dispatches deriving the state of `key` costs when the
/// result is not cached: one, unless a check fails first or the tipset is
/// the genesis tipset.
pub open spec fn state_dispatches(c: ChainView, key: Seq<Cid>) -> nat {
    match c.tipset_by_key(key) {
        None => 0,
        Some(ts) => if ts.epoch() == 0 {
            0
        } else if ts.has_duplicate_miner() {
            0
        } else if c.tipset_by_key(ts.parents()) is None {
            0
        } else {
            1
        },
    }
}

/// Result of a direct engine run over the tipset stored under `key`,
/// optionally watching for one message: the duplicate-miner check comes
/// first, then the ancestor lookup that determines the parent epoch, then
/// the engine's outcome.
pub open spec fn compute_spec(c: ChainView, key: Seq<Cid>, watch: Option<Cid>) -> Result<
    ComputeOutcome,
    Error,
> {
    match c.tipset_by_key(key) {
        None => Err(Error::NotFound),
        Some(ts) => if ts.has_duplicate_miner() {
            Err(Error::Inconsistent(Inconsistency::DuplicateMiner))
        } else if ts.epoch() > 0 && c.tipset_by_key(ts.parents()) is None {
            Err(Error::NotFound)
        } else {
            match c.execution_of(key) {
                None => Err(Error::ExecutionFailure),
                Some(e) => match watch {
                    None => Ok(ComputeOutcome::Completed((e.state_root, e.receipt_root))),
                    Some(w) => match first_watched(e.applied, w) {
                        None => Ok(ComputeOutcome::Completed((e.state_root, e.receipt_root))),
                        Some(am) => Ok(ComputeOutcome::Halted { message: am.message, ret: am.ret }),
                    },
                },
            }
        },
    }
}

/// Engine dispatches of a direct engine run: one unless a check fails first.
pub open spec fn compute_dispatches(c: ChainView, key: Seq<Cid>) -> nat {
    match c.tipset_by_key(key) {
        None => 0,
        Some(ts) => if ts.has_duplicate_miner() {
            0
        } else if ts.epoch() > 0 && c.tipset_by_key(ts.parents()) is None {
            0
        } else {
            1
        },
    }
}

/// Orchestrates state derivation over a chain view, caching one
/// (state root, receipt root) pair per tipset key.
#[derive(PartialEq, Eq, Debug)]
pub struct StateManager {
    /// The content-addressed view of the chain store and execution engine.
    pub chain: ChainView,
    /// Derived pairs by tipset key; each entry is filled exactly once.
    pub cache: Vec<(Vec<Cid>, CidPair)>,
    /// Whether a head-change subscription was attached at construction.
    pub subscriber: bool,
    /// Number of execution-engine dispatches performed so far.
    pub exec_count: u64,
}

/// What a state request returns: the cached pair when the key has one, the
/// freshly derived state otherwise.
pub open spec fn request_result(sm: StateManager, key: Seq<Cid>) -> Result<CidPair, Error> {
    match alist_get_k(sm.cache@, key) {
        Some(p) => Ok(p),
        None => state_of_key(sm.chain, key),
    }
}

/// Engine dispatches a state request costs: none when cached.
pub open spec fn request_dispatches(sm: StateManager, key: Seq<Cid>) -> nat {
    match alist_get_k(sm.cache@, key) {
        Some(_) => 0,
        None => state_dispatches(sm.chain, key),
    }
}

impl StateManager {
    /// Every stored tipset is well-formed and every cache entry holds
    /// exactly the state its key derives to.
    pub open spec fn wf(self) -> bool {
        &&& self.chain.wf()
        &&& forall|i: int|
            0 <= i < self.cache@.len() ==> state_of_key(
                self.chain,
                (#[trigger] self.cache@[i]).0@,
            ) == Ok::<CidPair, Error>(self.cache@[i].1)
    }

    /// A manager over the given chain view, with an empty cache and no
    /// head-change subscription.
    pub fn new(chain: ChainView) -> (r: StateManager)
        ensures
            r.chain == chain,
            r.cache@.len() == 0,
            r.subscriber == false,
            r.exec_count == 0,
            chain.wf() ==> r.wf(),
    {
        StateManager { chain, cache: Vec::new(), subscriber: false, exec_count: 0 }
    }

    /// A manager over the given chain view with a head-change subscription
    /// attached, as the wait-for-message protocol requires.
    pub fn new_with_subscribers(chain: ChainView) -> (r: StateManager)
        ensures
            r.chain == chain,
            r.cache@.len() == 0,
            r.subscriber == true,
            r.exec_count == 0,
            chain.wf() ==> r.wf(),
    {
        StateManager { chain, cache: Vec::new(), subscriber: true, exec_count: 0 }
    }

    /// The actor with the given address under the given state root;
    /// `NotFound` when the state root itself cannot be loaded.
    pub fn get_actor(&self, addr: u64, state_cid: Cid) -> (r: Result<
        Option<crate::types::ActorState>,
        Error,
    >)
        ensures
            match self.chain.actors_of(state_cid) {
                Some(list) => r == Ok::<Option<crate::types::ActorState>, Error>(
                    crate::chain::actor_in(list, addr),
                ),
                None => r == Err::<Option<crate::types::ActorState>, Error>(Error::NotFound),
            },
    {
        self.chain.actor_at(state_cid, addr)
    }

    /// Balance of the actor with the given address under the given state
    /// root; `NotFound` when the state cannot be loaded or the actor is
    /// absent.
    pub fn get_balance(&self, addr: u64, cid: Cid) -> (r: Result<u64, Error>)
        ensures
            r == match self.chain.actors_of(cid) {
                Some(list) => match crate::chain::actor_in(list, addr) {
                    Some(a) => Ok::<u64, Error>(a.balance),
                    None => Err::<u64, Error>(Error::NotFound),
                },
                None => Err::<u64, Error>(Error::NotFound),
            },
    {
        match self.chain.actor_at(cid, addr)? {
            Some(a) => Ok(a.balance),
            None => Err(Error::NotFound),
        }
    }

    /// Balance of the given address at the heaviest tipset's parent state;
    /// `NotFound` when no heaviest tipset is known.
    pub fn get_heaviest_balance(&self, addr: u64) -> (r: Result<u64, Error>)
        requires
            self.wf(),
        ensures
            r == match self.chain.heaviest_spec() {
                None => Err::<u64, Error>(Error::NotFound),
                Some(ts) => match self.chain.actors_of(ts.parent_state()) {
                    Some(list) => match crate::chain::actor_in(list, addr) {
                        Some(a) => Ok::<u64, Error>(a.balance),
                        None => Err::<u64, Error>(Error::NotFound),
                    },
                    None => Err::<u64, Error>(Error::NotFound),
                },
            },
    {
        match self.chain.heaviest_tipset() {
            Some(ts) => {
                proof {
                    crate::chain::lemma_tipset_lookup_wf(self.chain, self.chain.heaviest->0@);
                }
                let cid = ts.parent_state();
                self.get_balance(addr, cid)
            },
            None => Err(Error::NotFound),
        }
    }

    /// Drives the execution engine over the tipset stored under the given
    /// tipset's key, without touching the cache. When `watch` names a
    /// message cid, execution halts the moment that message is applied and
    /// its full apply result is returned instead of the roots.
    #[verifier::loop_isolation(false)]
    pub fn compute_tipset_state(&mut self, tipset: &Tipset, watch: Option<Cid>) -> (r: Result<
        ComputeOutcome,
        Error,
    >)
        requires
            old(self).wf(),
            old(self).exec_count < u64::MAX,
        ensures
            final(self).wf(),
            final(self).chain == old(self).chain,
            final(self).cache@ == old(self).cache@,
            final(self).subscriber == old(self).subscriber,
            r == compute_spec(old(self).chain, tipset@.key(), watch),
            final(self).exec_count == old(self).exec_count + compute_dispatches(
                old(self).chain,
                tipset@.key(),
            ),
    {
        let key = tipset.key();
        let stored = match self.chain.tipset_from_keys(&key) {
            Ok(t) => t,
            Err(e) => {
                return Err(e);
            },
        };
        proof {
            crate::chain::lemma_tipset_lookup_wf(self.chain, key@);
        }
        if stored.has_duplicate_miner() {
            return Err(Error::Inconsistent(Inconsistency::DuplicateMiner));
        }
        if stored.epoch() > 0 {
            // The parent tipset determines the parent epoch handed to the
            // engine; an unknown ancestor fails the computation.
            let parents = stored.parents();
            match self.chain.tipset_from_keys(parents) {
                Ok(_) => {},
                Err(e) => {
                    return Err(e);
                },
            }
        }
        self.exec_count = self.exec_count + 1;
        match alist_find_k(&self.chain.executions, &key) {
            None => Err(Error::ExecutionFailure),
            Some(i) => {
                let e = &self.chain.executions[i].1;
                match watch {
                    None => Ok(ComputeOutcome::Completed((e.state_root, e.receipt_root))),
                    Some(w) => {
                        let mut m: usize = 0;
                        proof {
                            assert(e.applied@.skip(0) =~= e.applied@);
                        }
                        while m < e.applied.len()
                            invariant
                                m <= e.applied@.len(),
                                first_watched(e.applied@.skip(m as int), w) == first_watched(
                                    e.applied@,
                                    w,
                                ),
                            decreases e.applied@.len() - m,
                        {
                            if e.applied[m].message.cid == w {
                                proof {
                                    assert(e.applied@.skip(m as int)[0] == e.applied@[m as int]);
                                }
                                let am = e.applied[m];
                                return Ok(ComputeOutcome::Halted { message: am.message, ret: am.ret });
                            }
                            proof {
                                assert(e.applied@.skip(m as int)[0] == e.applied@[m as int]);
                                assert(e.applied@.skip(m as int).drop_first() =~= e.applied@.skip(
                                    m as int + 1,
                                ));
                            }
                            m = m + 1;
                        }
                        Ok(ComputeOutcome::Completed((e.state_root, e.receipt_root)))
                    },
                }
            },
        }
    }

    /// Derives the given tipset's (state root, receipt root) pair without
    /// touching the cache: the genesis tipset short-circuits to its own
    /// recorded roots, anything else is the checked engine run. This is the
    /// computation that fills one cache entry; a concurrent driver may call
    /// it under a per-entry lock of its own.
    pub fn derive_tipset_state(&mut self, tipset: &Tipset) -> (r: Result<CidPair, Error>)
        requires
            old(self).wf(),
            old(self).exec_count < u64::MAX,
        ensures
            final(self).wf(),
            final(self).chain == old(self).chain,
            final(self).cache@ == old(self).cache@,
            final(self).subscriber == old(self).subscriber,
            r == state_of_key(old(self).chain, tipset@.key()),
            final(self).exec_count == old(self).exec_count + state_dispatches(
                old(self).chain,
                tipset@.key(),
            ),
    {
        let key = tipset.key();
        let stored = match self.chain.tipset_from_keys(&key) {
            Ok(t) => t,
            Err(e) => {
                return Err(e);
            },
        };
        proof {
            crate::chain::lemma_tipset_lookup_wf(self.chain, key@);
        }
        if stored.epoch() == 0 {
            // Genesis short-circuit: the genesis state is defined to be the
            // tipset's own recorded roots; no execution occurs.
            return Ok((stored.parent_state(), stored.receipts_root()));
        }
        match self.compute_tipset_state(tipset, None) {
            Err(e) => Err(e),
            Ok(ComputeOutcome::Completed(pair)) => Ok(pair),
            Ok(ComputeOutcome::Halted { message: _, ret: _ }) => {
                // Unreachable: no message was watched.
                proof {
                    assert(false);
                }
                Err(Error::ExecutionFailure)
            },
        }
    }

    /// Returns the (state root, receipt root) pair of the given tipset,
    /// deriving it at most once per key. A cached pair is returned without
    /// any engine dispatch; otherwise the pair is derived and cached.
    /// Failures are not cached, so a later request retries.
    pub fn tipset_state(&mut self, tipset: &Tipset) -> (r: Result<CidPair, Error>)
        requires
            old(self).wf(),
            old(self).exec_count < u64::MAX,
        ensures
            final(self).wf(),
            final(self).chain == old(self).chain,
            final(self).subscriber == old(self).subscriber,
            r == request_result(*old(self), tipset@.key()),
            final(self).exec_count == old(self).exec_count + request_dispatches(
                *old(self),
                tipset@.key(),
            ),
            alist_get_k(final(self).cache@, tipset@.key()) == (match r {
                Ok(p) => Some(p),
                Err(_) => alist_get_k(old(self).cache@, tipset@.key()),
            }),
            forall|k2: Seq<Cid>|
                k2 != tipset@.key() ==> alist_get_k(final(self).cache@, k2) == alist_get_k(
                    old(self).cache@,
                    k2,
                ),
    {
        let key = tipset.key();
        // Cache hit: the first requester filled the entry; return it as is.
        match alist_find_k(&self.cache, &key) {
            Some(i) => {
                return Ok(self.cache[i].1);
            },
            None => {},
        }
        let pair = match self.derive_tipset_state(tipset) {
            Ok(p) => p,
            Err(e) => {
                return Err(e);
            },
        };
        proof {
            lemma_alist_push_k(self.cache@, key, pair, key@);
            assert forall|k2: Seq<Cid>| k2 != tipset@.key() implies alist_get_k(
                self.cache@.push((key, pair)),
                k2,
            ) == alist_get_k(self.cache@, k2) by {
                lemma_alist_push_k(self.cache@, key, pair, k2);
            }
        }
        self.cache.push((key, pair));
        Ok(pair)
    }

    /// Returns the message and full apply result of executing the message
    /// with the given cid within the given tipset, by re-driving the engine
    /// with a watch that halts execution the moment the message is seen.
    /// `NotFound` when the tipset's execution never applies the message.
    pub fn replay(&mut self, ts: &Tipset, mcid: Cid) -> (r: Result<(Message, ApplyRet), Error>)
        requires
            old(self).wf(),
            old(self).exec_count < u64::MAX,
        ensures
            final(self).wf(),
            final(self).chain == old(self).chain,
            final(self).cache@ == old(self).cache@,
            final(self).subscriber == old(self).subscriber,
            final(self).exec_count == old(self).exec_count + compute_dispatches(
                old(self).chain,
                ts@.key(),
            ),
            r == (match compute_spec(old(self).chain, ts@.key(), Some(mcid)) {
                Err(e) => Err::<(Message, ApplyRet), Error>(e),
                Ok(ComputeOutcome::Halted { message, ret }) => Ok::<(Message, ApplyRet), Error>(
                    (message, ret),
                ),
                Ok(ComputeOutcome::Completed(_)) => Err::<(Message, ApplyRet), Error>(
                    Error::NotFound,
                ),
            }),
    {
        match self.compute_tipset_state(ts, Some(mcid)) {
            Err(e) => Err(e),
            Ok(ComputeOutcome::Halted { message, ret }) => Ok((message, ret)),
            Ok(ComputeOutcome::Completed(_)) => Err(Error::NotFound),
        }
    }
}

/// Under a well-formed manager the cache is transparent: a state request
/// returns exactly what deriving the state afresh would, whether or not the
/// key is cached.
pub proof fn lemma_request_result_state(sm: StateManager, key: Seq<Cid>)
    requires
        sm.wf(),
    ensures
        request_result(sm, key) == state_of_key(sm.chain, key),
{
    if alist_get_k(sm.cache@, key) is Some {
        crate::lookup::lemma_alist_get_k_some(sm.cache@, key);
        let i = choose|i: int|
            0 <= i < sm.cache@.len() && (#[trigger] sm.cache@[i]).0@ == key && sm.cache@[i].1@
                == alist_get_k(sm.cache@, key)->Some_0;
        assert(state_of_key(sm.chain, sm.cache@[i].0@) == Ok::<CidPair, Error>(sm.cache@[i].1));
    }
}

/// Cache idempotence: once a state request for a key has succeeded, a
/// second request on the resulting manager returns the same pair, leaves
/// the cache as it is, and dispatches nothing to the execution engine.
pub proof fn lemma_cache_idempotence(sm1: StateManager, sm2: StateManager, key: Seq<Cid>, p: CidPair)
    requires
        request_result(sm1, key) == Ok::<CidPair, Error>(p),
        sm2.chain == sm1.chain,
        alist_get_k(sm2.cache@, key) == Some(p),
    ensures
        request_result(sm2, key) == Ok::<CidPair, Error>(p),
        request_dispatches(sm2, key) == 0,
{
}

/// Cache key independence: a state request for one tipset never changes
/// what a request for a different tipset returns or costs.
pub proof fn lemma_cache_key_independence(
    sm1: StateManager,
    sm2: StateManager,
    key: Seq<Cid>,
    other: Seq<Cid>,
)
    requires
        other != key,
        sm2.chain == sm1.chain,
        // sm2 is sm1 after a state request for `key`: lookups of every
        // other key are unchanged.
        alist_get_k(sm2.cache@, other) == alist_get_k(sm1.cache@, other),
    ensures
        request_result(sm2, other) == request_result(sm1, other),
        request_dispatches(sm2, other) == request_dispatches(sm1, other),
{
}

/// Genesis short-circuit: a state request for the epoch-0 tipset returns
/// its own recorded parent-state and receipt roots and dispatches nothing
/// to the execution engine.
pub proof fn lemma_genesis_short_circuit(sm: StateManager, key: Seq<Cid>)
    requires
        sm.wf(),
        sm.chain.tipset_by_key(key) is Some,
        sm.chain.tipset_by_key(key)->Some_0.epoch() == 0,
    ensures
        ({
            let ts = sm.chain.tipset_by_key(key)->Some_0;
            request_result(sm, key) == Ok::<CidPair, Error>(
                (ts.parent_state(), ts.receipts_root()),
            )
        }),
        request_dispatches(sm, key) == 0,
{
    lemma_request_result_state(sm, key);
}

/// Duplicate-miner rejection: a tipset with two blocks sharing a miner
/// address fails with an inconsistency error before any execution is
/// dispatched.
pub proof fn lemma_duplicate_miner_rejection(sm: StateManager, key: Seq<Cid>)
    requires
        sm.wf(),
        sm.chain.tipset_by_key(key) is Some,
        sm.chain.tipset_by_key(key)->Some_0.epoch() > 0,
        sm.chain.tipset_by_key(key)->Some_0.has_duplicate_miner(),
    ensures
        request_result(sm, key) == Err::<CidPair, Error>(
            Error::Inconsistent(Inconsistency::DuplicateMiner),
        ),
        request_dispatches(sm, key) == 0,
{
    lemma_request_result_state(sm, key);
}

} // verus!
