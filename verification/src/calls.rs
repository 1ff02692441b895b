//! Planning of state calls: running a message against a tipset's state
//! without persisting changes.
//!
//! Applying the message is the execution engine's work and happens in the
//! runtime driver; everything decided beforehand is here: which tipset the
//! call runs against, which state root and epoch the engine is constructed
//! with, the default gas limit, and the sequence number resolved from the
//! sender's actor — and, afterwards, how an apply result becomes an
//! invocation result.

use vstd::prelude::*;

use crate::chain::ChainView;
use crate::manager::{request_dispatches, request_result, StateManager};
use crate::types::{ApplyRet, ChainEpoch, Cid, Error, InvocResult, Message, Tipset, TipsetView};

verus! {

/// Gas limit substituted for a zero gas limit on a planned call.
pub const DEFAULT_CALL_GAS_LIMIT: u64 = 10000000000;

/// Everything the engine needs to run one message against a state without
/// persisting changes.
#[derive(Clone, Copy, PartialEq, Eq, Debug)]
pub struct CallRequest {
    /// The message, gas limit defaulted and sequence resolved.
    pub msg: Message,
    /// State root the engine is constructed with.
    pub state_root: Cid,
    /// Epoch the engine runs at.
    pub epoch: ChainEpoch,
}

/// Everything the engine needs to run one message on top of a list of prior
/// messages, against a tipset's derived state. The engine runs at the epoch
/// following `epoch` and resolves the message's sequence from the sender's
/// actor once the prior messages are applied.
#[derive(PartialEq, Eq, Debug)]
pub struct CallWithGasRequest {
    /// The message to run last.
    pub msg: Message,
    /// Messages applied before it, in order.
    pub prior: Vec<Message>,
    /// The derived state root of the base tipset.
    pub state_root: Cid,
    /// Epoch of the base tipset.
    pub epoch: ChainEpoch,
    /// Base fee of the base tipset.
    pub base_fee: u64,
}

/// A message prepared for a call: a zero gas limit is defaulted and the
/// sequence is set to the sender's current one.
pub open spec fn prepared_message(msg: Message, actor_sequence: u64) -> Message {
    Message {
        gas_limit: if msg.gas_limit == 0 {
            DEFAULT_CALL_GAS_LIMIT
        } else {
            msg.gas_limit
        },
        sequence: actor_sequence,
        ..msg
    }
}

/// The tipset a call runs against: the given one, or the heaviest.
pub open spec fn chosen_tipset(c: ChainView, ts: Option<TipsetView>) -> Option<TipsetView> {
    match ts {
        Some(t) => Some(t),
        None => c.heaviest_spec(),
    }
}

/// What planning a call returns: the prepared message and the chosen
/// tipset's recorded parent state and epoch; `NotFound` when no tipset can
/// be chosen or the sender's actor cannot be resolved there.
pub open spec fn plan_call_spec(c: ChainView, msg: Message, ts: Option<TipsetView>) -> Result<
    CallRequest,
    Error,
> {
    match chosen_tipset(c, ts) {
        None => Err(Error::NotFound),
        Some(t) => match c.actor_of(t.parent_state(), msg.from) {
            None => Err(Error::NotFound),
            Some(a) => Ok(
                CallRequest {
                    msg: prepared_message(msg, a.sequence),
                    state_root: t.parent_state(),
                    epoch: t.epoch(),
                },
            ),
        },
    }
}

/// Wraps an apply result as an invocation result for the message it came
/// from.
pub fn finish_call(message: &Message, ret: &ApplyRet) -> (r: InvocResult)
    ensures
        r.msg == *message,
        r.msg_rct == Some(ret.msg_receipt),
        r.error == ret.act_error,
{
    InvocResult { msg: *message, msg_rct: Some(ret.msg_receipt), error: ret.act_error }
}

impl StateManager {
    /// Plans running the given message against the given tipset (or the
    /// heaviest when none is given) without persisting changes: the call
    /// runs against the tipset's recorded parent state at the tipset's
    /// epoch, with the gas limit defaulted and the sequence resolved from
    /// the sender's actor. The engine dispatch itself is the runtime
    /// driver's.
    pub fn plan_call(&self, message: &Message, tipset: Option<&Tipset>) -> (r: Result<
        CallRequest,
        Error,
    >)
        requires
            self.wf(),
            match tipset {
                Some(t) => t@.wf(),
                None => true,
            },
        ensures
            r == plan_call_spec(
                self.chain,
                *message,
                match tipset {
                    Some(t) => Some(t@),
                    None => None::<TipsetView>,
                },
            ),
    {
        let ts: Tipset = match tipset {
            Some(t) => t.clone(),
            None => match self.chain.heaviest_tipset() {
                Some(t) => {
                    proof {
                        crate::chain::lemma_tipset_lookup_wf(self.chain, self.chain.heaviest->0@);
                    }
                    t
                },
                None => {
                    return Err(Error::NotFound);
                },
            },
        };
        let state_root = ts.parent_state();
        let actor = match self.chain.actor_at(state_root, message.from) {
            Ok(Some(a)) => a,
            Ok(None) => {
                return Err(Error::NotFound);
            },
            Err(_) => {
                return Err(Error::NotFound);
            },
        };
        let gas_limit = if message.gas_limit == 0 {
            DEFAULT_CALL_GAS_LIMIT
        } else {
            message.gas_limit
        };
        let msg = Message { gas_limit, sequence: actor.sequence, ..*message };
        Ok(CallRequest { msg, state_root, epoch: ts.epoch() })
    }

    /// Plans running the given message on top of the given prior messages,
    /// against the derived (and cached) state of the given tipset or of the
    /// heaviest one. The engine runs at the epoch following the base
    /// tipset's, with its base fee, and resolves the message's sequence
    /// once the prior messages are applied — both are the runtime driver's
    /// work.
    pub fn plan_call_with_gas(
        &mut self,
        message: &Message,
        prior_messages: &Vec<Message>,
        tipset: Option<&Tipset>,
    ) -> (r: Result<CallWithGasRequest, Error>)
        requires
            old(self).wf(),
            old(self).exec_count < u64::MAX,
            match tipset {
                Some(t) => t@.wf(),
                None => true,
            },
        ensures
            final(self).wf(),
            final(self).chain == old(self).chain,
            final(self).subscriber == old(self).subscriber,
            match chosen_tipset(
                old(self).chain,
                match tipset {
                    Some(t) => Some(t@),
                    None => None::<TipsetView>,
                },
            ) {
                None => r == Err::<CallWithGasRequest, Error>(Error::NotFound) && *final(self)
                    == *old(self),
                Some(t) => {
                    &&& final(self).exec_count == old(self).exec_count + request_dispatches(
                        *old(self),
                        t.key(),
                    )
                    &&& match request_result(*old(self), t.key()) {
                        Err(e) => r == Err::<CallWithGasRequest, Error>(e),
                        Ok(pair) => {
                            &&& r is Ok
                            &&& r->Ok_0.msg == *message
                            &&& r->Ok_0.prior@ == prior_messages@
                            &&& r->Ok_0.state_root == pair.0
                            &&& r->Ok_0.epoch == t.epoch()
                            &&& r->Ok_0.base_fee == t.base_fee()
                        },
                    }
                },
            },
    {
        let ts: Tipset = match tipset {
            Some(t) => t.clone(),
            None => match self.chain.heaviest_tipset() {
                Some(t) => {
                    proof {
                        crate::chain::lemma_tipset_lookup_wf(self.chain, self.chain.heaviest->0@);
                    }
                    t
                },
                None => {
                    return Err(Error::NotFound);
                },
            },
        };
        let pair = match self.tipset_state(&ts) {
            Ok(p) => p,
            Err(e) => {
                return Err(e);
            },
        };
        let prior = prior_messages.clone();
        proof {
            assert(prior@ =~= prior_messages@);
        }
        Ok(
            CallWithGasRequest {
                msg: *message,
                prior,
                state_root: pair.0,
                epoch: ts.epoch(),
                base_fee: ts.base_fee(),
            },
        )
    }
}

} // verus!
