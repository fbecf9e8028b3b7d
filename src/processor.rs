use vstd::prelude::*;

use crate::data::Registrations;
use crate::error::Error;
use crate::protocol::{registered_event, Message, Request};
use crate::store::{
    faithful_run, inserts_only, lemma_run_single_identifier, store_answers, StoreCall, StoreReply,
};

verus! {

/// Where a request stands between store calls.
#[derive(Debug, Clone, Copy, PartialEq, Eq, Structural)]
pub enum Stage {
    /// Waiting for the answer to `Exists`.
    Checking,
    /// Waiting for the answer to `Insert`.
    Inserting,
    /// Waiting for the fresh aggregate; `matched` is the request's outcome.
    Totalling { matched: bool },
    /// The broadcast and the reply were handed out.
    Done,
    /// A store call failed; nothing was handed out.
    Abandoned,
}

/// What the driver of a request does next.
#[derive(Debug, Clone, PartialEq, Eq)]
pub enum Outcome {
    /// Run this statement on the store and resume with its answer.
    Call(StoreCall),
    /// Publish `broadcast` to every active connection and deliver `reply`
    /// to the requesting connection only.
    Deliver { broadcast: Message, reply: Message },
    /// Give the request up: nothing is published and nothing is sent.
    Abandon(Error),
    /// The request is finished; there is nothing left to do.
    Idle,
}

/// One inbound request on its way through the store.
pub struct Processor {
    pub request: Request,
    pub stage: Stage,
}

/// The statement a request in `stage` is waiting on, if any.
pub open spec fn pending_call(request: Request, stage: Stage) -> Option<StoreCall> {
    match stage {
        Stage::Checking => Some(StoreCall::Exists(request.spec_address())),
        Stage::Inserting => Some(StoreCall::Insert(request.spec_address())),
        Stage::Totalling { .. } => Some(StoreCall::Aggregate),
        _ => None,
    }
}

/// The stage after the store answered `reply` to the pending call.
pub open spec fn next_stage(request: Request, stage: Stage, reply: StoreReply) -> Stage {
    match stage {
        Stage::Checking => match reply {
            StoreReply::Exists(found) => if found {
                Stage::Totalling { matched: true }
            } else if request is Register {
                Stage::Inserting
            } else {
                Stage::Totalling { matched: false }
            },
            _ => Stage::Abandoned,
        },
        Stage::Inserting => match reply {
            StoreReply::Inserted(_) => Stage::Totalling { matched: true },
            StoreReply::Failed(Error::UniquenessViolation) => Stage::Totalling { matched: true },
            _ => Stage::Abandoned,
        },
        Stage::Totalling { .. } => match reply {
            StoreReply::Aggregate(_) => Stage::Done,
            _ => Stage::Abandoned,
        },
        _ => stage,
    }
}

/// The error a request is abandoned with: the store's own, or `QueryFailed`
/// for an answer that does not fit the statement.
pub open spec fn failure_of(reply: StoreReply) -> Error {
    match reply {
        StoreReply::Failed(e) => e,
        _ => Error::QueryFailed,
    }
}

/// What the driver is told after the store answered `reply` in `stage`.
pub open spec fn outcome_of(request: Request, stage: Stage, reply: StoreReply) -> Outcome {
    if stage is Done || stage is Abandoned {
        Outcome::Idle
    } else {
        let next = next_stage(request, stage, reply);
        match next {
            Stage::Done => match (stage, reply) {
                (Stage::Totalling { matched }, StoreReply::Aggregate(agg)) => Outcome::Deliver {
                    broadcast: registered_event(agg, None),
                    reply: registered_event(agg, Some(matched)),
                },
                _ => Outcome::Idle,
            },
            Stage::Abandoned => Outcome::Abandon(failure_of(reply)),
            _ => Outcome::Call(pending_call(request, next)->Some_0),
        }
    }
}

impl Processor {
    /// The statement the request is waiting on.
    pub open spec fn pending(self) -> Option<StoreCall> {
        pending_call(self.request, self.stage)
    }

    /// Starts a request: its first statement asks whether the identifier is
    /// already recorded.
    pub fn new(request: Request) -> (r: (Processor, StoreCall))
        ensures
            r.0.request == request,
            r.0.stage == Stage::Checking,
            r.0.pending() == Some(r.1),
    {
        let address = request.address().clone();
        (Processor { request, stage: Stage::Checking }, StoreCall::Exists(address))
    }

    /// The statement the request is waiting on, if any.
    pub fn call(&self) -> (r: Option<StoreCall>)
        ensures
            r == self.pending(),
    {
        match self.stage {
            Stage::Checking => Some(StoreCall::Exists(self.request.address().clone())),
            Stage::Inserting => Some(StoreCall::Insert(self.request.address().clone())),
            Stage::Totalling { .. } => Some(StoreCall::Aggregate),
            _ => None,
        }
    }

    /// Hands the store's answer to the pending statement to the request.
    ///
    /// An identifier found, inserted, or rejected by the store's uniqueness
    /// constraint counts as registered; a `Check` reports what `Exists` said.
    /// After the fresh aggregate comes the broadcast without an outcome and
    /// the direct reply with it. Any other failure abandons the request.
    pub fn resume(&mut self, reply: StoreReply) -> (r: Outcome)
        ensures
            final(self).request == old(self).request,
            final(self).stage == next_stage(old(self).request, old(self).stage, reply),
            r == outcome_of(old(self).request, old(self).stage, reply),
            r matches Outcome::Call(c) ==> final(self).pending() == Some(c),
    {
        match self.stage {
            Stage::Checking => match reply {
                StoreReply::Exists(found) => {
                    if found {
                        self.stage = Stage::Totalling { matched: true };
                        Outcome::Call(StoreCall::Aggregate)
                    } else {
                        match &self.request {
                            Request::Register { address } => {
                                let call = StoreCall::Insert(address.clone());
                                self.stage = Stage::Inserting;
                                Outcome::Call(call)
                            },
                            Request::Check { .. } => {
                                self.stage = Stage::Totalling { matched: false };
                                Outcome::Call(StoreCall::Aggregate)
                            },
                        }
                    }
                },
                StoreReply::Failed(e) => {
                    self.stage = Stage::Abandoned;
                    Outcome::Abandon(e)
                },
                _ => {
                    self.stage = Stage::Abandoned;
                    Outcome::Abandon(Error::QueryFailed)
                },
            },
            Stage::Inserting => match reply {
                StoreReply::Inserted(_) => {
                    self.stage = Stage::Totalling { matched: true };
                    Outcome::Call(StoreCall::Aggregate)
                },
                StoreReply::Failed(Error::UniquenessViolation) => {
                    self.stage = Stage::Totalling { matched: true };
                    Outcome::Call(StoreCall::Aggregate)
                },
                StoreReply::Failed(e) => {
                    self.stage = Stage::Abandoned;
                    Outcome::Abandon(e)
                },
                _ => {
                    self.stage = Stage::Abandoned;
                    Outcome::Abandon(Error::QueryFailed)
                },
            },
            Stage::Totalling { matched } => match reply {
                StoreReply::Aggregate(agg) => {
                    self.stage = Stage::Done;
                    Outcome::Deliver {
                        broadcast: Message::snapshot(agg),
                        reply: Message::outcome(agg, matched),
                    }
                },
                StoreReply::Failed(e) => {
                    self.stage = Stage::Abandoned;
                    Outcome::Abandon(e)
                },
                _ => {
                    self.stage = Stage::Abandoned;
                    Outcome::Abandon(Error::QueryFailed)
                },
            },
            _ => Outcome::Idle,
        }
    }
}

/// A `Register` never holds a negative outcome.
pub open spec fn consistent(p: Processor) -> bool {
    p.request is Register ==> p.stage != (Stage::Totalling { matched: false })
}

/// Once a `Register` has settled its outcome, its identifier is recorded.
pub open spec fn registered_in(p: Processor, records: Set<Seq<char>>) -> bool {
    (p.request is Register && (p.stage is Totalling || p.stage is Done)) ==> records.contains(
        p.request.spec_address()@,
    )
}

/// The request after the store answered `reply` to its pending statement.
pub open spec fn advanced(p: Processor, reply: StoreReply) -> Processor {
    Processor { request: p.request, stage: next_stage(p.request, p.stage, reply) }
}

/// A request that has just started is consistent and makes no claim on the
/// store yet.
pub proof fn lemma_new_request(request: Request, records: Set<Seq<char>>)
    ensures
        consistent(Processor { request, stage: Stage::Checking }),
        registered_in(Processor { request, stage: Stage::Checking }, records),
{
}

/// A `Register` step against a faithful store: however the concurrent
/// inserts of other requests interleave, once the request settles its
/// identifier is recorded, and the direct reply it ends with says
/// `address: true`.
pub proof fn lemma_register_step(
    p: Processor,
    records: Set<Seq<char>>,
    reply: StoreReply,
    after: Set<Seq<char>>,
)
    requires
        p.request is Register,
        consistent(p),
        registered_in(p, records),
        p.pending() is Some,
        store_answers(records, p.pending()->Some_0, reply, after),
    ensures
        consistent(advanced(p, reply)),
        registered_in(advanced(p, reply), after),
        outcome_of(p.request, p.stage, reply) matches Outcome::Deliver { reply: r, .. } ==> r
            matches Message::Registered { address: Some(true), .. },
{
}

/// What other requests do to the store never undoes a settled
/// registration: records are never removed.
pub proof fn lemma_registered_stays(
    p: Processor,
    records: Set<Seq<char>>,
    call: StoreCall,
    reply: StoreReply,
    after: Set<Seq<char>>,
)
    requires
        registered_in(p, records),
        store_answers(records, call, reply, after),
    ensures
        registered_in(p, after),
{
}

/// A `Check` reports whether its identifier was recorded when the store
/// answered `Exists`: `false` before any registration of it, `true` once
/// one has settled.
pub proof fn lemma_check_step(
    p: Processor,
    records: Set<Seq<char>>,
    reply: StoreReply,
    after: Set<Seq<char>>,
)
    requires
        p.request is Check,
        p.stage == Stage::Checking,
        store_answers(records, p.pending()->Some_0, reply, after),
    ensures
        next_stage(p.request, p.stage, reply) == Stage::Abandoned || next_stage(
            p.request,
            p.stage,
            reply,
        ) == (Stage::Totalling { matched: records.contains(p.request.spec_address()@) }),
{
}

/// A `Check` of an identifier whose `Register` has settled, against the
/// same faithful store, reports it as registered (or is abandoned).
pub proof fn lemma_check_after_register(
    registered: Processor,
    p: Processor,
    records: Set<Seq<char>>,
    reply: StoreReply,
    after: Set<Seq<char>>,
)
    requires
        registered.request is Register,
        registered.stage == Stage::Done,
        registered_in(registered, records),
        p.request is Check,
        p.request.spec_address()@ == registered.request.spec_address()@,
        p.stage == Stage::Checking,
        store_answers(records, p.pending()->Some_0, reply, after),
    ensures
        next_stage(p.request, p.stage, reply) == Stage::Abandoned || next_stage(
            p.request,
            p.stage,
            reply,
        ) == (Stage::Totalling { matched: true }),
{
    lemma_check_step(p, records, reply, after);
}

/// Once its total is known, a request hands out exactly the broadcast
/// without an outcome and the direct reply with it, both carrying the
/// aggregate that the store has just computed.
pub proof fn lemma_delivery(p: Processor, agg: Registrations)
    requires
        p.stage is Totalling,
    ensures
        outcome_of(p.request, p.stage, StoreReply::Aggregate(agg)) == (Outcome::Deliver {
            broadcast: registered_event(agg, None),
            reply: registered_event(agg, Some(p.stage->matched)),
        }),
{
}

/// Concurrent `Register`s of one identifier that was not recorded, with no
/// other registration in between: every total the store reports during the
/// race is the total before it or one more, and the broadcast each of the
/// racing requests ends with carries the total before the race plus one.
pub proof fn lemma_race_broadcast_total(
    p: Processor,
    states: Seq<Set<Seq<char>>>,
    calls: Seq<StoreCall>,
    replies: Seq<StoreReply>,
    i: int,
)
    requires
        faithful_run(states, calls, replies),
        states[0].finite(),
        p.request is Register,
        !states[0].contains(p.request.spec_address()@),
        inserts_only(calls, p.request.spec_address()@),
        0 <= i < calls.len(),
        p.stage is Totalling,
        registered_in(p, states[i]),
        calls[i] == StoreCall::Aggregate,
    ensures
        forall|j: int|
            0 <= j < calls.len() && (#[trigger] replies[j]) is Aggregate ==> states[0].len()
                <= replies[j]->Aggregate_0.total <= states[0].len() + 1,
        outcome_of(p.request, p.stage, replies[i]) matches Outcome::Deliver { broadcast, .. } ==> broadcast
            == registered_event(replies[i]->Aggregate_0, None) && replies[i]->Aggregate_0.total
            == states[0].len() + 1,
{
    let x = p.request.spec_address()@;
    assert forall|j: int| 0 <= j < calls.len() && (#[trigger] replies[j]) is Aggregate implies states[0].len()
        <= replies[j]->Aggregate_0.total <= states[0].len() + 1 by {
        lemma_run_single_identifier(states, calls, replies, x, j);
        assert(store_answers(states[j], calls[j], replies[j], states[j + 1]));
    }
    lemma_run_single_identifier(states, calls, replies, x, i);
    assert(store_answers(states[i], calls[i], replies[i], states[i + 1]));
    assert(states[i] == states[0].insert(x));
}

} // verus!
