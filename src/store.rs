use vstd::prelude::*;

use crate::data::{Registration, Registrations};
use crate::error::Error;

verus! {

/// A statement that the request processor asks the store to run.
#[derive(Debug, Clone, PartialEq, Eq)]
pub enum StoreCall {
    /// Is the identifier recorded?
    Exists(String),
    /// Record the identifier.
    Insert(String),
    /// Count the records and find the most recent one.
    Aggregate,
}

/// What the store answered to a [`StoreCall`].
#[derive(Debug, Clone, PartialEq, Eq)]
pub enum StoreReply {
    Exists(bool),
    Inserted(Registration),
    Aggregate(Registrations),
    Failed(Error),
}

/// Whether a store that keeps each identifier at most once, holding the
/// identifiers `records`, may answer `call` with `reply` and be left holding
/// `after`. Every statement may fail without effect; a uniqueness violation
/// comes only from inserting an identifier that is already there; nothing is
/// ever removed.
pub open spec fn store_answers(
    records: Set<Seq<char>>,
    call: StoreCall,
    reply: StoreReply,
    after: Set<Seq<char>>,
) -> bool {
    match reply {
        StoreReply::Failed(e) => {
            &&& after == records
            &&& e == Error::UniquenessViolation ==> (call matches StoreCall::Insert(x) && records.contains(x@))
        },
        _ => match call {
            StoreCall::Exists(x) => after == records && reply == StoreReply::Exists(records.contains(x@)),
            StoreCall::Insert(x) => {
                &&& !records.contains(x@)
                &&& after == records.insert(x@)
                &&& reply matches StoreReply::Inserted(rec) && rec.address@ == x@
            },
            StoreCall::Aggregate => {
                &&& after == records
                &&& reply matches StoreReply::Aggregate(agg) && agg.total == records.len()
            },
        },
    }
}

/// Whether `states` is the store's history over a run in which it answered
/// `calls[i]` with `replies[i]` faithfully, moving from `states[i]` to
/// `states[i + 1]`, whichever concurrent requests made the calls.
pub open spec fn faithful_run(
    states: Seq<Set<Seq<char>>>,
    calls: Seq<StoreCall>,
    replies: Seq<StoreReply>,
) -> bool {
    &&& states.len() == calls.len() + 1
    &&& replies.len() == calls.len()
    &&& forall|i: int|
        0 <= i < calls.len() ==> #[trigger] store_answers(states[i], calls[i], replies[i], states[i + 1])
}

/// Whether every insert among `calls` is of the identifier `x`.
pub open spec fn inserts_only(calls: Seq<StoreCall>, x: Seq<char>) -> bool {
    forall|i: int| 0 <= i < calls.len() && (#[trigger] calls[i]) is Insert ==> calls[i]->Insert_0@ == x
}

/// One faithful answer never loses a record, and the number of records
/// grows by exactly the number of identifiers that were not there before:
/// one when an insert of a new identifier succeeds, none otherwise.
pub proof fn lemma_answer_grows_by_new(
    records: Set<Seq<char>>,
    call: StoreCall,
    reply: StoreReply,
    after: Set<Seq<char>>,
)
    requires
        records.finite(),
        store_answers(records, call, reply, after),
    ensures
        after.finite(),
        records.subset_of(after),
        after.len() == records.len() + after.difference(records).len(),
        after.len() == records.len() + (if reply is Inserted { 1int } else { 0int }),
{
    match reply {
        StoreReply::Inserted(_) => {
            let x = call->Insert_0@;
            assert(after.difference(records) =~= set![x]);
        },
        _ => {
            assert(after.difference(records) =~= Set::<Seq<char>>::empty());
        },
    }
}

/// Over any run of faithful answers, to calls made by any number of
/// concurrent requests in any interleaving, the set of records only grows,
/// so the aggregate total never decreases, and the total at the end exceeds
/// the total at the start by exactly the number of distinct identifiers
/// registered in between.
pub proof fn lemma_run_totals(
    states: Seq<Set<Seq<char>>>,
    calls: Seq<StoreCall>,
    replies: Seq<StoreReply>,
)
    requires
        faithful_run(states, calls, replies),
        states[0].finite(),
    ensures
        forall|i: int| 0 <= i < states.len() ==> #[trigger] states[i].finite(),
        forall|i: int, j: int|
            0 <= i <= j < states.len() ==> #[trigger] states[i].subset_of(states[j]) && states[i].len()
                <= states[j].len(),
        states.last().len() == states[0].len() + states.last().difference(states[0]).len(),
    decreases calls.len(),
{
    let n = calls.len();
    if n == 0 {
        assert(states.last().difference(states[0]) =~= Set::<Seq<char>>::empty());
    } else {
        let m = (n - 1) as int;
        let init = states.subrange(0, n as int);
        lemma_run_totals(init, calls.subrange(0, m), replies.subrange(0, m));
        assert(store_answers(states[m], calls[m], replies[m], states[m + 1]));
        lemma_answer_grows_by_new(states[m], calls[m], replies[m], states[m + 1]);
        assert forall|i: int| 0 <= i < states.len() implies #[trigger] states[i].finite() by {
            if i < n {
                assert(states[i] == init[i]);
            }
        }
        assert forall|i: int, j: int| 0 <= i <= j < states.len() implies #[trigger] states[i].subset_of(
            states[j],
        ) && states[i].len() <= states[j].len() by {
            if j < n {
                assert(states[i] == init[i] && states[j] == init[j]);
            } else if i < n {
                assert(states[i] == init[i] && states[m] == init[m]);
                assert(states[i].subset_of(states[m]));
                assert(states[m].subset_of(states[j]));
                assert(states[i].subset_of(states[j]));
                vstd::set_lib::lemma_len_subset(states[i], states[j]);
            }
        }
        let first = states[0];
        let mid = states[m];
        let last = states.last();
        assert(first == init[0] && mid == init.last());
        assert(first.subset_of(mid));
        assert(last.difference(first) =~= mid.difference(first).union(last.difference(mid)));
        assert(mid.difference(first).disjoint(last.difference(mid)));
        vstd::set_lib::lemma_set_disjoint_lens(mid.difference(first), last.difference(mid));
    }
}

/// When every insert of a run is of one identifier `x`, the store holds at
/// each point either what it held at the start or that and `x`.
pub proof fn lemma_run_single_identifier(
    states: Seq<Set<Seq<char>>>,
    calls: Seq<StoreCall>,
    replies: Seq<StoreReply>,
    x: Seq<char>,
    i: int,
)
    requires
        faithful_run(states, calls, replies),
        inserts_only(calls, x),
        0 <= i < states.len(),
    ensures
        states[i] == states[0] || states[i] == states[0].insert(x),
    decreases i,
{
    if i > 0 {
        let k = i - 1;
        lemma_run_single_identifier(states, calls, replies, x, k);
        assert(store_answers(states[k], calls[k], replies[k], states[k + 1]));
        if calls[k] is Insert {
            assert(calls[k]->Insert_0@ == x);
        }
        assert(states[0].insert(x).insert(x) =~= states[0].insert(x));
    }
}

} // verus!
