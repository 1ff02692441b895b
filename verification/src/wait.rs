//! Reorg-aware wait-for-message protocol.
//!
//! A message may already be on chain (found by the backward search) or may
//! appear in a future head update; a reorg discovered after a provisional
//! sighting must retract it. The protocol races a one-shot backward search
//! against the live head-change stream: the stream side holds the best
//! unconfirmed sighting as a candidate, clears it on any revert, and
//! returns it once the head has grown `confidence` epochs above it; the
//! backward result is honored only if its tipset was never reverted and is
//! already deep enough below the snapshot head.
//!
//! The decisions are all here, verified; a runtime driver supplies the
//! event stream and the arrival slot of the backward result, which models
//! the race's schedule.

use vstd::prelude::*;

use crate::chain::ChainView;
use crate::manager::StateManager;
use crate::resolver::{local_check, message_by_cid, search_back_spec};
use crate::types::{
    Address, ChainEpoch, Cid, Error, HeadChange, MessageReceipt, Tipset, TipsetView,
};

verus! {

/// Mathematical view of a wait in progress.
pub struct WaitStateView {
    pub from: Address,
    pub sequence: u64,
    pub cid: Cid,
    pub confidence: u64,
    pub head_epoch: ChainEpoch,
    pub candidate: Option<(TipsetView, MessageReceipt)>,
    pub reverts: Seq<Seq<Cid>>,
}

/// One wait-for-message invocation's mutable state: the message identity,
/// the required confidence, the snapshot head height, the best unconfirmed
/// sighting, and the keys of every tipset seen reverted.
#[derive(PartialEq, Eq, Debug)]
pub struct WaitState {
    /// Sender of the awaited message.
    pub from: Address,
    /// Sequence number of the awaited message.
    pub sequence: u64,
    /// Content identifier of the awaited message.
    pub cid: Cid,
    /// Epochs of chain growth required atop a sighting.
    pub confidence: u64,
    /// Height of the head snapshot the wait started from.
    pub head_epoch: ChainEpoch,
    /// Best not-yet-confirmed sighting of the message.
    pub candidate: Option<(Tipset, MessageReceipt)>,
    /// Keys of tipsets seen in revert events.
    pub reverts: Vec<Vec<Cid>>,
}

impl View for WaitState {
    type V = WaitStateView;

    open spec fn view(&self) -> WaitStateView {
        WaitStateView {
            from: self.from,
            sequence: self.sequence,
            cid: self.cid,
            confidence: self.confidence,
            head_epoch: self.head_epoch,
            candidate: match self.candidate {
                None => None,
                Some((t, r)) => Some((t@, r)),
            },
            reverts: self.reverts@.map_values(|k: Vec<Cid>| k@),
        }
    }
}

/// Whether a tipset key is among the reverted ones.
pub open spec fn reverted(rs: Seq<Seq<Cid>>, key: Seq<Cid>) -> bool {
    exists|j: int| 0 <= j < rs.len() && rs[j] == key
}

/// One step of the stream side of the protocol: the new state and, when the
/// wait is decided, its outcome. A mid-stream `Current` event is ignored; a
/// `Revert` records the key and conservatively clears any candidate; an
/// `Apply` first confirms a candidate deep enough below the new head, then
/// re-runs the local check against the new head, returning immediately at
/// confidence zero and holding a candidate otherwise.
pub open spec fn step_spec(c: ChainView, st: WaitStateView, ev: HeadChange) -> (
    WaitStateView,
    Result<Option<(TipsetView, MessageReceipt)>, Error>,
) {
    match ev {
        HeadChange::Current(_) => (st, Ok(None)),
        HeadChange::Revert(ts) => (
            WaitStateView { candidate: None, reverts: st.reverts.push(ts@.key()), ..st },
            Ok(None),
        ),
        HeadChange::Apply(ts) => {
            if st.candidate is Some && ts@.epoch() >= st.candidate->Some_0.0.epoch()
                + st.confidence {
                (st, Ok(Some(st.candidate->Some_0)))
            } else {
                match local_check(c, ts@, st.cid, st.from, st.sequence) {
                    Err(e) => (st, Err(e)),
                    Ok(Some(rc)) => if st.confidence == 0 {
                        (st, Ok(Some((ts@, rc))))
                    } else {
                        (WaitStateView { candidate: Some((ts@, rc)), ..st }, Ok(None))
                    },
                    Ok(None) => (st, Ok(None)),
                }
            }
        },
    }
}

/// How the backward search's result is honored when it arrives: a search
/// failure fails the wait; a miss means the message is definitely not on
/// chain below the snapshot; a sighting at a tipset that was meanwhile
/// reverted, or not yet `confidence` epochs below the snapshot head, is
/// ignored and the stream side keeps racing.
pub open spec fn accept_back_spec(
    st: WaitStateView,
    back: Result<Option<(TipsetView, MessageReceipt)>, Error>,
) -> Result<Option<(TipsetView, MessageReceipt)>, Error> {
    match back {
        Err(e) => Err(e),
        Ok(None) => Err(Error::NotFound),
        Ok(Some((bt, br))) => if reverted(st.reverts, bt.key()) {
            Ok(None)
        } else if bt.epoch() + st.confidence <= st.head_epoch {
            Ok(Some((bt, br)))
        } else {
            Ok(None)
        },
    }
}

/// Folding the remaining events once the backward result has been consumed
/// (or lost): the first decided step wins; an exhausted stream yields
/// nothing.
pub open spec fn wait_events(
    c: ChainView,
    st: WaitStateView,
    events: Seq<HeadChange>,
    i: int,
) -> Result<(Option<TipsetView>, Option<MessageReceipt>), Error>
    decreases events.len() - i,
{
    if i < 0 || i >= events.len() {
        Ok((None, None))
    } else {
        let (st2, out) = step_spec(c, st, events[i]);
        match out {
            Err(e) => Err(e),
            Ok(Some((t, rc))) => Ok((Some(t), Some(rc))),
            Ok(None) => wait_events(c, st2, events, i + 1),
        }
    }
}

/// The race: events are processed in order, and the backward result is
/// consumed at its arrival slot `back_at` (after the stream ends it is
/// never consulted — the stream side already won).
pub open spec fn wait_race(
    c: ChainView,
    st: WaitStateView,
    events: Seq<HeadChange>,
    i: int,
    back_at: int,
    back: Result<Option<(TipsetView, MessageReceipt)>, Error>,
) -> Result<(Option<TipsetView>, Option<MessageReceipt>), Error>
    decreases events.len() - i,
{
    if i < 0 || i >= events.len() {
        Ok((None, None))
    } else if i >= back_at {
        match accept_back_spec(st, back) {
            Err(e) => Err(e),
            Ok(Some((t, rc))) => Ok((Some(t), Some(rc))),
            Ok(None) => wait_events(c, st, events, i),
        }
    } else {
        let (st2, out) = step_spec(c, st, events[i]);
        match out {
            Err(e) => Err(e),
            Ok(Some((t, rc))) => Ok((Some(t), Some(rc))),
            Ok(None) => wait_race(c, st2, events, i + 1, back_at, back),
        }
    }
}

/// The whole wait: a subscription must be attached; the message is loaded
/// by cid; the first event must be the current-head snapshot; the snapshot
/// is checked locally, returning at once when the sighting is already
/// confirmed (confidence zero) and holding it as the initial candidate
/// otherwise; then the stream race runs against the backward search from
/// the snapshot.
pub open spec fn wait_spec(
    c: ChainView,
    subscriber: bool,
    events: Seq<HeadChange>,
    back_at: int,
    cid: Cid,
    confidence: u64,
) -> Result<(Option<TipsetView>, Option<MessageReceipt>), Error> {
    if !subscriber {
        Err(Error::ProtocolViolation)
    } else {
        match message_by_cid(c, cid) {
            None => Err(Error::NotFound),
            Some(m) => if events.len() == 0 {
                Err(Error::ProtocolViolation)
            } else {
                match events[0] {
                    HeadChange::Current(head) => {
                        let back = search_back_spec(c, head@.key(), m.from, cid, m.sequence);
                        match local_check(c, head@, cid, m.from, m.sequence) {
                            Err(e) => Err(e),
                            Ok(found) => if found is Some && confidence == 0 {
                                Ok((Some(head@), Some(found->Some_0)))
                            } else {
                                let st = WaitStateView {
                                    from: m.from,
                                    sequence: m.sequence,
                                    cid: cid,
                                    confidence: confidence,
                                    head_epoch: head@.epoch(),
                                    candidate: match found {
                                        Some(rc) => Some((head@, rc)),
                                        None => None,
                                    },
                                    reverts: Seq::empty(),
                                };
                                wait_race(c, st, events, 1, back_at, back)
                            },
                        }
                    },
                    _ => Err(Error::ProtocolViolation),
                }
            },
        }
    }
}

/// Every tipset carried by the events is well-formed.
pub open spec fn events_wf(events: Seq<HeadChange>) -> bool {
    forall|i: int|
        0 <= i < events.len() ==> match #[trigger] events[i] {
            HeadChange::Current(t) => t@.wf(),
            HeadChange::Apply(t) => t@.wf(),
            HeadChange::Revert(t) => t@.wf(),
        }
}

/// View of an exec backward-search result.
pub open spec fn view_back(b: Result<Option<(Tipset, MessageReceipt)>, Error>) -> Result<
    Option<(TipsetView, MessageReceipt)>,
    Error,
> {
    match b {
        Err(e) => Err(e),
        Ok(None) => Ok(None),
        Ok(Some((t, rc))) => Ok(Some((t@, rc))),
    }
}

/// Whether the exec outcome is the view-level outcome.
pub open spec fn outcome_matches(
    r: Result<(Option<Tipset>, Option<MessageReceipt>), Error>,
    s: Result<(Option<TipsetView>, Option<MessageReceipt>), Error>,
) -> bool {
    match (r, s) {
        (Ok((rt, rr)), Ok((st, sr))) => (match (rt, st) {
            (Some(a), Some(b)) => a@ == b,
            (None, None) => true,
            _ => false,
        }) && rr == sr,
        (Err(e1), Err(e2)) => e1 == e2,
        _ => false,
    }
}

/// How a wait begins once the snapshot head is known.
#[derive(PartialEq, Eq, Debug)]
pub enum WaitStart {
    /// The message is already confirmed at the snapshot: the wait is over.
    Found(Tipset, MessageReceipt),
    /// The wait goes on from this state, racing the backward search
    /// against further head changes.
    Pending(WaitState),
}

/// Membership of a key among the recorded reverted keys.
fn reverts_contains(rs: &Vec<Vec<Cid>>, key: &Vec<Cid>) -> (r: bool)
    ensures
        r == reverted(rs@.map_values(|k: Vec<Cid>| k@), key@),
{
    let mut j: usize = 0;
    while j < rs.len()
        invariant
            j <= rs@.len(),
            forall|x: int| 0 <= x < j ==> (#[trigger] rs@[x])@ != key@,
        decreases rs@.len() - j,
    {
        if crate::lookup::key_eq(&rs[j], key) {
            proof {
                assert(rs@.map_values(|k: Vec<Cid>| k@)[j as int] == key@);
            }
            return true;
        }
        j = j + 1;
    }
    false
}

impl StateManager {
    /// Begins a wait: a subscription must be attached, the message is
    /// loaded by cid, and the given first stream event must be the
    /// current-head snapshot. The snapshot is checked locally; a sighting
    /// already confirmed (confidence zero) ends the wait, any other
    /// sighting becomes the initial candidate.
    pub fn wait_start(&self, first: &HeadChange, cid: Cid, confidence: u64) -> (r: Result<
        WaitStart,
        Error,
    >)
        requires
            self.wf(),
            match *first {
                HeadChange::Current(ref t) => t@.wf(),
                _ => true,
            },
        ensures
            !self.subscriber ==> r == Err::<WaitStart, Error>(Error::ProtocolViolation),
            self.subscriber ==> match message_by_cid(self.chain, cid) {
                None => r == Err::<WaitStart, Error>(Error::NotFound),
                Some(m) => match *first {
                    HeadChange::Current(ref head) => match local_check(
                        self.chain,
                        head@,
                        cid,
                        m.from,
                        m.sequence,
                    ) {
                        Err(e) => r == Err::<WaitStart, Error>(e),
                        Ok(found) => if found is Some && confidence == 0 {
                            &&& r is Ok
                            &&& r->Ok_0 is Found
                            &&& r->Ok_0->Found_0@ == head@
                            &&& r->Ok_0->Found_1 == found->Some_0
                        } else {
                            &&& r is Ok
                            &&& r->Ok_0 is Pending
                            &&& r->Ok_0->Pending_0@ == (WaitStateView {
                                from: m.from,
                                sequence: m.sequence,
                                cid: cid,
                                confidence: confidence,
                                head_epoch: head@.epoch(),
                                candidate: match found {
                                    Some(rc) => Some((head@, rc)),
                                    None => None,
                                },
                                reverts: Seq::empty(),
                            })
                        },
                    },
                    _ => r == Err::<WaitStart, Error>(Error::ProtocolViolation),
                },
            },
    {
        if !self.subscriber {
            return Err(Error::ProtocolViolation);
        }
        let m = match self.get_chain_message(cid) {
            Ok(m) => m,
            Err(e) => {
                return Err(e);
            },
        };
        let head = match first {
            HeadChange::Current(t) => t,
            _ => {
                return Err(Error::ProtocolViolation);
            },
        };
        let found = match self.tipset_executed_message(head, cid, m.from, m.sequence) {
            Ok(f) => f,
            Err(e) => {
                return Err(e);
            },
        };
        match found {
            Some(rc) => {
                if confidence == 0 {
                    return Ok(WaitStart::Found(head.clone(), rc));
                }
            },
            None => {},
        }
        let st = WaitState {
            from: m.from,
            sequence: m.sequence,
            cid: cid,
            confidence: confidence,
            head_epoch: head.epoch(),
            candidate: match found {
                Some(rc) => Some((head.clone(), rc)),
                None => None,
            },
            reverts: Vec::new(),
        };
        proof {
            assert(st@.reverts =~= Seq::<Seq<Cid>>::empty());
        }
        Ok(WaitStart::Pending(st))
    }

    /// One step of the stream side of the wait protocol, exactly as
    /// [`step_spec`] describes: the state is advanced in place and a
    /// decided wait returns its sighting.
    #[verifier::loop_isolation(false)]
    pub fn wait_step(&self, st: &mut WaitState, event: &HeadChange) -> (r: Result<
        Option<(Tipset, MessageReceipt)>,
        Error,
    >)
        requires
            self.wf(),
            match *event {
                HeadChange::Current(ref t) => t@.wf(),
                HeadChange::Apply(ref t) => t@.wf(),
                HeadChange::Revert(ref t) => t@.wf(),
            },
            old(st)@.candidate is Some ==> old(st)@.candidate->Some_0.0.wf(),
        ensures
            ({
                let (st2, out) = step_spec(self.chain, old(st)@, *event);
                &&& final(st)@ == st2
                &&& match (r, out) {
                    (Ok(None), Ok(None)) => true,
                    (Ok(Some((t, rc))), Ok(Some((tv, rcv)))) => t@ == tv && rc == rcv,
                    (Err(e1), Err(e2)) => e1 == e2,
                    _ => false,
                }
                &&& final(st)@.candidate is Some ==> final(st)@.candidate->Some_0.0.wf()
            }),
    {
        match event {
            HeadChange::Current(_) => Ok(None),
            HeadChange::Revert(ts) => {
                st.reverts.push(ts.key());
                st.candidate = None;
                proof {
                    assert(st@.reverts =~= old(st)@.reverts.push(ts@.key()));
                }
                Ok(None)
            },
            HeadChange::Apply(ts) => {
                let confirmed = match &st.candidate {
                    Some((ct, _cr)) => ts.epoch() >= ct.epoch() && ts.epoch() - ct.epoch()
                        >= st.confidence,
                    None => false,
                };
                if confirmed {
                    let (ct, cr) = match &st.candidate {
                        Some((ct, cr)) => (ct.clone(), *cr),
                        None => {
                            proof {
                                assert(false);
                            }
                            return Err(Error::ChannelFailure);
                        },
                    };
                    return Ok(Some((ct, cr)));
                }
                match self.tipset_executed_message(ts, st.cid, st.from, st.sequence) {
                    Err(e) => Err(e),
                    Ok(Some(rc)) => {
                        if st.confidence == 0 {
                            return Ok(Some((ts.clone(), rc)));
                        }
                        st.candidate = Some((ts.clone(), rc));
                        Ok(None)
                    },
                    Ok(None) => Ok(None),
                }
            },
        }
    }

    /// Honors the backward search's result against the current wait state,
    /// exactly as [`accept_back_spec`] describes: a decided wait returns
    /// its sighting, an ignored sighting returns nothing and the stream
    /// side keeps racing.
    pub fn accept_back(
        &self,
        st: &WaitState,
        back: &Result<Option<(Tipset, MessageReceipt)>, Error>,
    ) -> (r: Result<Option<(Tipset, MessageReceipt)>, Error>)
        requires
            match *back {
                Ok(Some((ref t, _))) => t@.wf(),
                _ => true,
            },
        ensures
            ({
                let out = accept_back_spec(st@, view_back(*back));
                match (r, out) {
                    (Ok(None), Ok(None)) => true,
                    (Ok(Some((t, rc))), Ok(Some((tv, rcv)))) => t@ == tv && rc == rcv,
                    (Err(e1), Err(e2)) => e1 == e2,
                    _ => false,
                }
            }),
    {
        match back {
            Err(e) => Err(*e),
            Ok(None) => Err(Error::NotFound),
            Ok(Some((bt, br))) => {
                proof {
                    assert(st.reverts@.map_values(|k: Vec<Cid>| k@) =~= st@.reverts);
                }
                let bkey = bt.key();
                if !reverts_contains(&st.reverts, &bkey) {
                    if st.confidence <= st.head_epoch && bt.epoch() <= st.head_epoch
                        - st.confidence {
                        return Ok(Some((bt.clone(), *br)));
                    }
                }
                Ok(None)
            },
        }
    }

    /// Waits until the message with the given cid is confirmed at or deeper
    /// than `confidence` epochs below the head, processing the given
    /// head-change events in stream order; the backward search's result is
    /// consumed after `back_arrival` of them (the race's schedule, which a
    /// runtime driver observes rather than chooses). The first event must
    /// be the current-head snapshot. An exhausted stream yields
    /// `(None, None)`.
    #[verifier::loop_isolation(false)]
    pub fn wait_for_message(
        &self,
        events: &Vec<HeadChange>,
        back_arrival: usize,
        cid: Cid,
        confidence: u64,
    ) -> (r: Result<(Option<Tipset>, Option<MessageReceipt>), Error>)
        requires
            self.wf(),
            events_wf(events@),
        ensures
            outcome_matches(
                r,
                wait_spec(
                    self.chain,
                    self.subscriber,
                    events@,
                    back_arrival as int,
                    cid,
                    confidence,
                ),
            ),
    {
        if events.len() == 0 {
            if !self.subscriber {
                return Err(Error::ProtocolViolation);
            }
            match self.get_chain_message(cid) {
                Ok(_) => {
                    return Err(Error::ProtocolViolation);
                },
                Err(e) => {
                    return Err(e);
                },
            }
        }
        let mut st = match self.wait_start(&events[0], cid, confidence) {
            Err(e) => {
                return Err(e);
            },
            Ok(WaitStart::Found(t, rc)) => {
                return Ok((Some(t), Some(rc)));
            },
            Ok(WaitStart::Pending(st)) => st,
        };
        let head = match &events[0] {
            HeadChange::Current(t) => t,
            _ => {
                // A pending start implies the first event was the snapshot.
                proof {
                    assert(false);
                }
                return Err(Error::ProtocolViolation);
            },
        };
        let ghost from0 = st@.from;
        let ghost seq0 = st@.sequence;
        let back = self.search_back_for_message(head, st.from, cid, st.sequence);
        let ghost back_v = search_back_spec(self.chain, head@.key(), from0, cid, seq0);
        proof {
            assert(view_back(back) == back_v);
            match back {
                Ok(Some((ref bt, _))) => {
                    crate::resolver::lemma_search_back_found_wf(
                        self.chain,
                        head@.key(),
                        from0,
                        cid,
                        seq0,
                    );
                    assert(bt@.wf());
                },
                _ => {},
            }
        }
        let ghost goal = wait_spec(
            self.chain,
            self.subscriber,
            events@,
            back_arrival as int,
            cid,
            confidence,
        );
        proof {
            assert(goal == wait_race(
                self.chain,
                st@,
                events@,
                1,
                back_arrival as int,
                back_v,
            ));
        }
        let mut i: usize = 1;
        let mut back_done = false;
        while i < events.len()
            invariant
                1 <= i <= events@.len(),
                st@.candidate is Some ==> st@.candidate->Some_0.0.wf(),
                match back {
                    Ok(Some((ref t, _))) => t@.wf(),
                    _ => true,
                },
                !back_done ==> goal == wait_race(
                    self.chain,
                    st@,
                    events@,
                    i as int,
                    back_arrival as int,
                    back_v,
                ),
                back_done ==> goal == wait_events(self.chain, st@, events@, i as int),
                !back_done ==> view_back(back) == back_v,
            decreases events@.len() - i,
        {
            if !back_done && i >= back_arrival {
                // The backward task's result arrives now; honor it only if
                // its tipset was never reverted and sits deep enough below
                // the snapshot head.
                match self.accept_back(&st, &back) {
                    Err(e) => {
                        return Err(e);
                    },
                    Ok(Some((t, rc))) => {
                        return Ok((Some(t), Some(rc)));
                    },
                    Ok(None) => {
                        back_done = true;
                        proof {
                            assert(goal == wait_events(self.chain, st@, events@, i as int));
                        }
                    },
                }
            }
            let out = match self.wait_step(&mut st, &events[i]) {
                Ok(o) => o,
                Err(e) => {
                    return Err(e);
                },
            };
            match out {
                Some((t, rc)) => {
                    return Ok((Some(t), Some(rc)));
                },
                None => {},
            }
            i = i + 1;
        }
        Ok((None, None))
    }
}

/// With confidence zero, a message sighted on a live apply event decides
/// the wait immediately, with the applied tipset and the found receipt.
pub proof fn lemma_confidence_zero_returns(
    c: ChainView,
    st: WaitStateView,
    ts: Tipset,
    rc: MessageReceipt,
)
    requires
        st.confidence == 0,
        st.candidate is None,
        local_check(c, ts@, st.cid, st.from, st.sequence) == Ok::<Option<MessageReceipt>, Error>(
            Some(rc),
        ),
    ensures
        step_spec(c, st, HeadChange::Apply(ts)) == (st, Ok::<
            Option<(TipsetView, MessageReceipt)>,
            Error,
        >(Some((ts@, rc)))),
{
}

/// With positive confidence, a live sighting is not returned but held as
/// the new candidate, replacing any earlier one wholesale.
pub proof fn lemma_sighting_held(c: ChainView, st: WaitStateView, ts: Tipset, rc: MessageReceipt)
    requires
        st.confidence > 0,
        st.candidate is None,
        local_check(c, ts@, st.cid, st.from, st.sequence) == Ok::<Option<MessageReceipt>, Error>(
            Some(rc),
        ),
    ensures
        step_spec(c, st, HeadChange::Apply(ts)).0.candidate == Some((ts@, rc)),
        step_spec(c, st, HeadChange::Apply(ts)).1 == Ok::<
            Option<(TipsetView, MessageReceipt)>,
            Error,
        >(None),
{
}

/// A held candidate is returned exactly when a newly applied head has grown
/// at least `confidence` epochs above the candidate's tipset.
pub proof fn lemma_candidate_confirmed(c: ChainView, st: WaitStateView, ts: Tipset)
    requires
        st.candidate is Some,
        ts@.epoch() >= st.candidate->Some_0.0.epoch() + st.confidence,
    ensures
        step_spec(c, st, HeadChange::Apply(ts)) == (st, Ok::<
            Option<(TipsetView, MessageReceipt)>,
            Error,
        >(Some(st.candidate->Some_0))),
{
}

/// Reorg invalidation: any revert event discards a held candidate, even one
/// unrelated to the candidate's own tipset, and records the reverted key.
pub proof fn lemma_revert_clears_candidate(c: ChainView, st: WaitStateView, ts: Tipset)
    ensures
        step_spec(c, st, HeadChange::Revert(ts)).0.candidate is None,
        step_spec(c, st, HeadChange::Revert(ts)).0.reverts == st.reverts.push(ts@.key()),
        step_spec(c, st, HeadChange::Revert(ts)).1 == Ok::<
            Option<(TipsetView, MessageReceipt)>,
            Error,
        >(None),
{
}

/// A backward sighting at a tipset that was meanwhile reverted is never
/// honored.
pub proof fn lemma_reverted_back_result_ignored(
    st: WaitStateView,
    bt: TipsetView,
    br: MessageReceipt,
)
    requires
        reverted(st.reverts, bt.key()),
    ensures
        accept_back_spec(st, Ok(Some((bt, br)))) == Ok::<
            Option<(TipsetView, MessageReceipt)>,
            Error,
        >(None),
{
}

} // verus!
