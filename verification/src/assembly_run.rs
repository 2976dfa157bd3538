//! What holds of every run of the block assembler, whatever its caller
//! reports and in whatever order.

use vstd::prelude::*;
use crate::assembler::{
    assembly_step, AssemblyActionView, AssemblyError, AssemblyEventView, AssemblyStateView,
};
use crate::types::AssemblyRequestView;

verus! {

/// The run of an assembly of `request` that starts idle and is fed `events`
/// one after the other: the state it ends in, and the action that each event
/// was answered with.
pub open spec fn run(
    request: AssemblyRequestView,
    retry_limit: u32,
    events: Seq<AssemblyEventView>,
) -> (AssemblyStateView, Seq<AssemblyActionView>)
    decreases events.len(),
{
    if events.len() == 0 {
        (AssemblyStateView::Idle, Seq::empty())
    } else {
        let (state, actions) = run(request, retry_limit, events.drop_last());
        let (next, action) = assembly_step(request, retry_limit, state, events.last());
        (next, actions.push(action))
    }
}

/// How many of `actions` store a block.
pub open spec fn seals(actions: Seq<AssemblyActionView>) -> nat
    decreases actions.len(),
{
    if actions.len() == 0 {
        0
    } else {
        seals(actions.drop_last()) + if actions.last() is Seal {
            1nat
        } else {
            0nat
        }
    }
}

/// How many of `actions` store a commitment.
pub open spec fn publications(actions: Seq<AssemblyActionView>) -> nat
    decreases actions.len(),
{
    if actions.len() == 0 {
        0
    } else {
        publications(actions.drop_last()) + if actions.last() is StoreCommitment {
            1nat
        } else {
            0nat
        }
    }
}

/// How many of `actions` send a commitment to the chain.
pub open spec fn submissions(actions: Seq<AssemblyActionView>) -> nat
    decreases actions.len(),
{
    if actions.len() == 0 {
        0
    } else {
        submissions(actions.drop_last()) + if actions.last() is Submit {
            1nat
        } else {
            0nat
        }
    }
}

/// `events` are the start of an assembly whose block is not stored yet,
/// followed by the transactions of `collected`, each found, in their order.
pub open spec fn fetched_in_order(events: Seq<AssemblyEventView>, collected: Seq<Seq<u8>>) -> bool {
    &&& events.len() > collected.len()
    &&& events[0] == AssemblyEventView::Started { block_stored: false }
    &&& forall|p: int|
        0 <= p < collected.len() ==> #[trigger] events[p + 1] == (AssemblyEventView::Fetched {
            transaction: Some(collected[p]),
        })
}

/// `events` report, after the start and the admitted transactions, that the
/// block is stored and `commitment` computed over it.
pub open spec fn block_stored_with(
    request: AssemblyRequestView,
    events: Seq<AssemblyEventView>,
    commitment: Seq<u8>,
) -> bool {
    &&& events.len() > request.tx_count + 1
    &&& events[0] == AssemblyEventView::Started { block_stored: false }
    &&& events[request.tx_count + 1] == (AssemblyEventView::Committed { commitment })
}

/// `events` report, after the block, that `commitment` is stored as well.
pub open spec fn commitment_stored(
    request: AssemblyRequestView,
    events: Seq<AssemblyEventView>,
    commitment: Seq<u8>,
) -> bool {
    &&& block_stored_with(request, events, commitment)
    &&& events.len() > request.tx_count + 2
    &&& events[request.tx_count + 2] == AssemblyEventView::CommitmentStored
}

/// What the action at `position` of a run answers to, where it writes or
/// sends anything.
spec fn action_grounded(
    request: AssemblyRequestView,
    events: Seq<AssemblyEventView>,
    position: int,
    action: AssemblyActionView,
) -> bool {
    match action {
        AssemblyActionView::Seal { block } => {
            &&& position == request.tx_count
            &&& block.len() == request.tx_count
            &&& fetched_in_order(events, block)
        },
        AssemblyActionView::StoreCommitment { commitment } => {
            &&& position == request.tx_count + 1
            &&& block_stored_with(request, events, commitment)
        },
        AssemblyActionView::Submit { commitment } => {
            &&& request.is_leader
            &&& position >= request.tx_count + 2
            &&& commitment_stored(request, events, commitment)
        },
        _ => true,
    }
}

/// Whether no event moves `state` any further.
pub open spec fn is_over(state: AssemblyStateView) -> bool {
    state is Finished || state is Failed
}

/// What a run keeps true from its first event on.
spec fn run_inv(
    request: AssemblyRequestView,
    retry_limit: u32,
    events: Seq<AssemblyEventView>,
    state: AssemblyStateView,
    actions: Seq<AssemblyActionView>,
) -> bool {
    &&& actions.len() == events.len()
    &&& seals(actions) <= 1
    &&& publications(actions) <= seals(actions)
    &&& submissions(actions) <= retry_limit + 1
    &&& submissions(actions) > 0 ==> request.is_leader && publications(actions) == 1
    &&& forall|i: int|
        0 <= i < actions.len() ==> action_grounded(request, events, i, #[trigger] actions[i])
    &&& events.len() > 0 && events[0] == (AssemblyEventView::Started { block_stored: true })
        ==> state is Finished && seals(actions) == 0
    &&& forall|i: int| 0 <= i < events.len() && #[trigger] events[i] is StoreFailed ==> is_over(state)
    &&& forall|i: int, j: int|
        0 <= i <= j < events.len() && #[trigger] events[i] is StoreFailed
            ==> #[trigger] actions[j] is Stop
    &&& match state {
        AssemblyStateView::Idle => events.len() == 0,
        AssemblyStateView::Fetching { collected } => {
            &&& seals(actions) == 0
            &&& submissions(actions) == 0
            &&& collected.len() < request.tx_count
            &&& events.len() == collected.len() + 1
            &&& fetched_in_order(events, collected)
        },
        AssemblyStateView::Sealing => {
            &&& seals(actions) == 1
            &&& publications(actions) == 0
            &&& submissions(actions) == 0
            &&& events.len() == request.tx_count + 1
            &&& events[0] == AssemblyEventView::Started { block_stored: false }
        },
        AssemblyStateView::Storing { commitment } => {
            &&& publications(actions) == 1
            &&& submissions(actions) == 0
            &&& events.len() == request.tx_count + 2
            &&& block_stored_with(request, events, commitment)
        },
        AssemblyStateView::Submitting { commitment, retries } => {
            &&& request.is_leader
            &&& publications(actions) == 1
            &&& submissions(actions) == retries + 1
            &&& retries <= retry_limit
            &&& commitment_stored(request, events, commitment)
        },
        AssemblyStateView::Finished => {
            ||| events[0] == AssemblyEventView::Started { block_stored: true }
            ||| {
                &&& events[0] == AssemblyEventView::Started { block_stored: false }
                &&& publications(actions) == 1
                &&& submissions(actions) > 0 <==> request.is_leader
            }
        },
        AssemblyStateView::Failed { error } => match error {
            AssemblyError::MissingTransaction { position } => {
                &&& seals(actions) == 0
                &&& position < request.tx_count
            },
            AssemblyError::SubmissionExhausted { retries } => {
                &&& request.is_leader
                &&& retries == retry_limit
                &&& submissions(actions) == retry_limit + 1
            },
            _ => true,
        },
    }
}

/// Every run keeps [`run_inv`].
proof fn lemma_run_inv(
    request: AssemblyRequestView,
    retry_limit: u32,
    events: Seq<AssemblyEventView>,
)
    ensures
        run_inv(
            request,
            retry_limit,
            events,
            run(request, retry_limit, events).0,
            run(request, retry_limit, events).1,
        ),
    decreases events.len(),
{
    if events.len() > 0 {
        let earlier = events.drop_last();
        let event = events.last();
        let (state, done) = run(request, retry_limit, earlier);
        let (next, action) = assembly_step(request, retry_limit, state, event);
        let actions = done.push(action);
        lemma_run_inv(request, retry_limit, earlier);
        assert(actions.drop_last() =~= done);
        assert(actions.last() == action);
        assert forall|p: int| 0 <= p < earlier.len() implies #[trigger] events[p] == earlier[p] by {}
        assert forall|i: int| 0 <= i < actions.len() implies action_grounded(
            request,
            events,
            i,
            #[trigger] actions[i],
        ) by {
            if i < done.len() {
                assert(actions[i] == done[i]);
                assert(action_grounded(request, earlier, i, done[i]));
                match done[i] {
                    AssemblyActionView::Seal { block } => {
                        assert forall|p: int| 0 <= p < block.len() implies #[trigger] events[p + 1]
                            == (AssemblyEventView::Fetched { transaction: Some(block[p]) }) by {
                            assert(earlier[p + 1] == events[p + 1]);
                        }
                    },
                    _ => {},
                }
            } else {
                match (state, event) {
                    (
                        AssemblyStateView::Fetching { collected },
                        AssemblyEventView::Fetched { transaction: Some(transaction) },
                    ) => {
                        let block = collected.push(transaction);
                        assert forall|p: int| 0 <= p < block.len() implies #[trigger] events[p + 1]
                            == (AssemblyEventView::Fetched { transaction: Some(block[p]) }) by {
                            if p < collected.len() {
                                assert(earlier[p + 1] == events[p + 1]);
                            }
                        }
                    },
                    _ => {},
                }
            }
        }
        match next {
            AssemblyStateView::Fetching { collected } => {
                assert forall|p: int| 0 <= p < collected.len() implies #[trigger] events[p + 1]
                    == (AssemblyEventView::Fetched { transaction: Some(collected[p]) }) by {
                    match state {
                        AssemblyStateView::Fetching { collected: before } => {
                            if p < before.len() {
                                assert(earlier[p + 1] == events[p + 1]);
                            }
                        },
                        _ => {},
                    }
                }
            },
            _ => {},
        }
        assert forall|i: int| 0 <= i < events.len() && #[trigger] events[i] is StoreFailed implies is_over(
            next,
        ) by {
            if i < earlier.len() {
                assert(earlier[i] is StoreFailed);
            }
        }
        assert forall|i: int, j: int|
            0 <= i <= j < events.len() && #[trigger] events[i] is StoreFailed implies #[trigger] actions[j] is Stop by {
            if j < done.len() {
                assert(earlier[i] is StoreFailed);
                assert(actions[j] == done[j]);
            } else if i < earlier.len() {
                assert(earlier[i] is StoreFailed);
            }
        }
    }
}

/// An assembly writes its block at most once and its commitment at most once,
/// and the commitment only after the block. One that stopped over a missing
/// transaction has written neither; one that finished has written both,
/// unless the block was stored when it started.
pub proof fn law_written_once(
    request: AssemblyRequestView,
    retry_limit: u32,
    events: Seq<AssemblyEventView>,
)
    ensures
        ({
            let (state, actions) = run(request, retry_limit, events);
            &&& seals(actions) <= 1
            &&& publications(actions) <= seals(actions)
            &&& state is Finished && events[0] == (AssemblyEventView::Started { block_stored: false })
                ==> seals(actions) == 1 && publications(actions) == 1
            &&& state matches AssemblyStateView::Failed {
                error: AssemblyError::MissingTransaction { position },
            } ==> seals(actions) == 0 && publications(actions) == 0 && position < request.tx_count
        }),
{
    lemma_run_inv(request, retry_limit, events);
}

/// An assembly that is started on a height whose block is stored already
/// writes nothing and sends nothing, whatever is reported to it afterwards: it
/// is finished at once and stays so.
pub proof fn law_stored_block_is_left_alone(
    request: AssemblyRequestView,
    retry_limit: u32,
    events: Seq<AssemblyEventView>,
)
    requires
        events.len() > 0,
        events[0] == (AssemblyEventView::Started { block_stored: true }),
    ensures
        ({
            let (state, actions) = run(request, retry_limit, events);
            &&& state is Finished
            &&& seals(actions) == 0
            &&& publications(actions) == 0
            &&& submissions(actions) == 0
        }),
{
    lemma_run_inv(request, retry_limit, events);
}

/// A block is written only once every admitted transaction was found: the
/// action that stores it answers the event after the last of them, and the
/// block holds exactly the transactions that were reported, as many as were
/// admitted, in the order of their positions.
pub proof fn law_block_holds_admitted_transactions(
    request: AssemblyRequestView,
    retry_limit: u32,
    events: Seq<AssemblyEventView>,
    i: int,
)
    requires
        0 <= i < events.len(),
        run(request, retry_limit, events).1[i] is Seal,
    ensures
        ({
            let block = run(request, retry_limit, events).1[i]->block;
            &&& i == request.tx_count
            &&& block.len() == request.tx_count
            &&& events[0] == AssemblyEventView::Started { block_stored: false }
            &&& forall|p: int|
                0 <= p < request.tx_count ==> #[trigger] events[p + 1] == (AssemblyEventView::Fetched {
                    transaction: Some(block[p]),
                })
        }),
{
    lemma_run_inv(request, retry_limit, events);
    let actions = run(request, retry_limit, events).1;
    assert(action_grounded(request, events, i, actions[i]));
}

/// A commitment is written only once the block is reported as stored, and it
/// is the commitment that was reported with the block.
pub proof fn law_commitment_follows_block(
    request: AssemblyRequestView,
    retry_limit: u32,
    events: Seq<AssemblyEventView>,
    i: int,
)
    requires
        0 <= i < events.len(),
        run(request, retry_limit, events).1[i] is StoreCommitment,
    ensures
        i == request.tx_count + 1,
        events[i] == (AssemblyEventView::Committed {
            commitment: run(request, retry_limit, events).1[i]->StoreCommitment_commitment,
        }),
{
    lemma_run_inv(request, retry_limit, events);
    let actions = run(request, retry_limit, events).1;
    assert(action_grounded(request, events, i, actions[i]));
}

/// A commitment is sent to the chain only by a leader, and only once both the
/// block and the commitment are reported as stored; what is sent is the
/// commitment that was stored.
pub proof fn law_submission_follows_storing(
    request: AssemblyRequestView,
    retry_limit: u32,
    events: Seq<AssemblyEventView>,
    i: int,
)
    requires
        0 <= i < events.len(),
        run(request, retry_limit, events).1[i] is Submit,
    ensures
        request.is_leader,
        request.tx_count + 2 <= i,
        commitment_stored(
            request,
            events,
            run(request, retry_limit, events).1[i]->Submit_commitment,
        ),
{
    lemma_run_inv(request, retry_limit, events);
    let actions = run(request, retry_limit, events).1;
    assert(action_grounded(request, events, i, actions[i]));
}

/// A failure of the store ends the run: the event that reports it and every
/// event after it are answered by `Stop`, so nothing is written or sent from
/// then on, and the assembly is over.
pub proof fn law_store_failure_ends_run(
    request: AssemblyRequestView,
    retry_limit: u32,
    events: Seq<AssemblyEventView>,
    i: int,
)
    requires
        0 <= i < events.len(),
        events[i] is StoreFailed,
    ensures
        is_over(run(request, retry_limit, events).0),
        forall|j: int| i <= j < events.len() ==> #[trigger] run(request, retry_limit, events).1[j] is Stop,
{
    lemma_run_inv(request, retry_limit, events);
}

/// The chain is called only for a height that the node led, and a leader's
/// assembly does not finish without calling it, unless the block was stored
/// when it started. No run calls it more often than once and `retry_limit`
/// times again; one that used all of these in vain ends as failed, not as
/// finished.
pub proof fn law_chain_called_only_by_leader(
    request: AssemblyRequestView,
    retry_limit: u32,
    events: Seq<AssemblyEventView>,
)
    ensures
        ({
            let (state, actions) = run(request, retry_limit, events);
            &&& submissions(actions) > 0 ==> request.is_leader
            &&& state is Finished && events[0] == (AssemblyEventView::Started { block_stored: false })
                ==> (submissions(actions) > 0 <==> request.is_leader)
            &&& submissions(actions) <= retry_limit + 1
            &&& state matches AssemblyStateView::Failed {
                error: AssemblyError::SubmissionExhausted { retries },
            } ==> request.is_leader && retries == retry_limit && submissions(actions) == retry_limit
                + 1
        }),
{
    lemma_run_inv(request, retry_limit, events);
}

} // verus!
