//! The block assembler: collect the transactions of one height in their
//! order, seal the block, store its commitment and, for a leader, see the
//! commitment through to the chain.
//!
//! The assembler is a state machine. Its caller performs each action and
//! reports what came of it as the next event. Every write is reported before
//! the next action is asked for, so nothing is sent that is not stored, and a
//! height whose block is stored already is left alone.

use vstd::prelude::*;
use crate::types::{
    AssemblyRequest, AssemblyRequestView, BlockCommitment, RawTransaction, TransactionOrder,
    transactions_view,
};

verus! {

/// Why an assembly gave up.
#[derive(Clone, Copy, Debug, PartialEq, Eq, Structural)]
pub enum AssemblyError {
    /// No transaction is stored at `position`, though it lies below the
    /// admitted count.
    MissingTransaction { position: TransactionOrder },
    /// The chain took the commitment neither at the first attempt nor at any
    /// of the `retries` that followed.
    SubmissionExhausted { retries: u32 },
    /// The store failed on a read or on a write.
    StoreFailed,
    /// An event arrived that answers no action of the assembler.
    UnexpectedEvent,
}

/// Where an assembly stands, as a mathematical value.
pub enum AssemblyStateView {
    Idle,
    Fetching { collected: Seq<Seq<u8>> },
    Sealing,
    Storing { commitment: Seq<u8> },
    Submitting { commitment: Seq<u8>, retries: u32 },
    Finished,
    Failed { error: AssemblyError },
}

/// Where an assembly stands.
#[derive(Debug, PartialEq, Eq)]
pub enum AssemblyState {
    /// Nothing has been asked for yet.
    Idle,
    /// The transactions in `collected` are in; the one at the next position
    /// has been asked for.
    Fetching { collected: Vec<RawTransaction> },
    /// The block has been handed out; its commitment is awaited.
    Sealing,
    /// The block is stored; the write of `commitment` has been asked for.
    Storing { commitment: BlockCommitment },
    /// The commitment is on its way to the chain, after `retries` failed
    /// attempts.
    Submitting { commitment: BlockCommitment, retries: u32 },
    /// The assembly is done.
    Finished,
    /// The assembly gave up.
    Failed { error: AssemblyError },
}

impl View for AssemblyState {
    type V = AssemblyStateView;

    open spec fn view(&self) -> AssemblyStateView {
        match *self {
            AssemblyState::Idle => AssemblyStateView::Idle,
            AssemblyState::Fetching { collected } => AssemblyStateView::Fetching {
                collected: transactions_view(collected@),
            },
            AssemblyState::Sealing => AssemblyStateView::Sealing,
            AssemblyState::Storing { commitment } => AssemblyStateView::Storing {
                commitment: commitment@,
            },
            AssemblyState::Submitting { commitment, retries } => AssemblyStateView::Submitting {
                commitment: commitment@,
                retries,
            },
            AssemblyState::Finished => AssemblyStateView::Finished,
            AssemblyState::Failed { error } => AssemblyStateView::Failed { error },
        }
    }
}

impl AssemblyState {
    /// Whether the assembly is over, for better or worse: no event moves it
    /// any further.
    pub fn is_terminal(&self) -> (res: bool)
        ensures
            res == (self@ is Finished || self@ is Failed),
    {
        match self {
            AssemblyState::Finished => true,
            AssemblyState::Failed { .. } => true,
            _ => false,
        }
    }
}

/// What the caller reports to the assembler, as a mathematical value.
pub enum AssemblyEventView {
    Started { block_stored: bool },
    Fetched { transaction: Option<Seq<u8>> },
    Committed { commitment: Seq<u8> },
    CommitmentStored,
    Submitted { accepted: bool },
    StoreFailed,
}

/// What the caller reports to the assembler.
#[derive(Debug, PartialEq, Eq)]
pub enum AssemblyEvent {
    /// The assembly has been started; `block_stored` says whether a block is
    /// stored for its rollup and height already.
    Started { block_stored: bool },
    /// The store answered the last `Fetch`: with the transaction, or with
    /// `None` where it holds none at that position.
    Fetched { transaction: Option<RawTransaction> },
    /// The block of the last `Seal` is stored, and `commitment` was computed
    /// over it.
    Committed { commitment: BlockCommitment },
    /// The commitment of the last `StoreCommitment` is stored.
    CommitmentStored,
    /// The chain answered the last `Submit`.
    Submitted { accepted: bool },
    /// The store failed on what the last action asked of it, or on the read
    /// before the start.
    StoreFailed,
}

impl View for AssemblyEvent {
    type V = AssemblyEventView;

    open spec fn view(&self) -> AssemblyEventView {
        match *self {
            AssemblyEvent::Started { block_stored } => AssemblyEventView::Started { block_stored },
            AssemblyEvent::Fetched { transaction } => AssemblyEventView::Fetched {
                transaction: match transaction {
                    Some(tx) => Some(tx@),
                    None => None,
                },
            },
            AssemblyEvent::Committed { commitment } => AssemblyEventView::Committed {
                commitment: commitment@,
            },
            AssemblyEvent::CommitmentStored => AssemblyEventView::CommitmentStored,
            AssemblyEvent::Submitted { accepted } => AssemblyEventView::Submitted { accepted },
            AssemblyEvent::StoreFailed => AssemblyEventView::StoreFailed,
        }
    }
}

/// What the assembler asks of its caller, as a mathematical value.
pub enum AssemblyActionView {
    Fetch { position: TransactionOrder },
    Seal { block: Seq<Seq<u8>> },
    StoreCommitment { commitment: Seq<u8> },
    Submit { commitment: Seq<u8> },
    Stop,
}

/// What the assembler asks of its caller. Where the store fails on any of
/// them, the caller reports `StoreFailed` in place of the answer.
#[derive(Debug, PartialEq, Eq)]
pub enum AssemblyAction {
    /// Read the transaction at `position` of the assembly's rollup and
    /// height, and report it as `Fetched`.
    Fetch { position: TransactionOrder },
    /// Store `block` as the block of the assembly's rollup and height; once
    /// it is stored, compute its commitment and report that as `Committed`.
    Seal { block: Vec<RawTransaction> },
    /// Store `commitment` as the commitment of the assembly's rollup and
    /// height, and report `CommitmentStored`.
    StoreCommitment { commitment: BlockCommitment },
    /// Send `commitment` to the chain and report the outcome as `Submitted`.
    Submit { commitment: BlockCommitment },
    /// Nothing is left to do.
    Stop,
}

impl View for AssemblyAction {
    type V = AssemblyActionView;

    open spec fn view(&self) -> AssemblyActionView {
        match *self {
            AssemblyAction::Fetch { position } => AssemblyActionView::Fetch { position },
            AssemblyAction::Seal { block } => AssemblyActionView::Seal {
                block: transactions_view(block@),
            },
            AssemblyAction::StoreCommitment { commitment } => AssemblyActionView::StoreCommitment {
                commitment: commitment@,
            },
            AssemblyAction::Submit { commitment } => AssemblyActionView::Submit {
                commitment: commitment@,
            },
            AssemblyAction::Stop => AssemblyActionView::Stop,
        }
    }
}

/// Where an assembly goes once `collected` holds the transactions read so
/// far: on to the next position while one is left below the admitted count,
/// and to the sealing of the block once none is.
pub open spec fn after_fetch(
    request: AssemblyRequestView,
    collected: Seq<Seq<u8>>,
) -> (AssemblyStateView, AssemblyActionView) {
    if collected.len() >= request.tx_count {
        (AssemblyStateView::Sealing, AssemblyActionView::Seal { block: collected })
    } else {
        (
            AssemblyStateView::Fetching { collected },
            AssemblyActionView::Fetch { position: collected.len() as u64 },
        )
    }
}

/// One step of the assembly of `request`, which may send a refused commitment
/// again up to `retry_limit` times: the state after `event`, and the action
/// that the caller is to perform next.
///
/// A finished or failed assembly stays as it is. A failure of the store fails
/// the assembly at once. An assembly that starts on a height whose block is
/// stored is finished before it asks for anything. Else transactions are read
/// one position after the other; a missing one ends the assembly before
/// anything is written. The commitment is stored once the block is, by
/// everyone, and sent to the chain once it is stored, by the leader alone. An
/// event that answers no action fails the assembly.
pub open spec fn assembly_step(
    request: AssemblyRequestView,
    retry_limit: u32,
    state: AssemblyStateView,
    event: AssemblyEventView,
) -> (AssemblyStateView, AssemblyActionView) {
    match (state, event) {
        (AssemblyStateView::Finished, _) => (state, AssemblyActionView::Stop),
        (AssemblyStateView::Failed { .. }, _) => (state, AssemblyActionView::Stop),
        (_, AssemblyEventView::StoreFailed) => (
            AssemblyStateView::Failed { error: AssemblyError::StoreFailed },
            AssemblyActionView::Stop,
        ),
        (AssemblyStateView::Idle, AssemblyEventView::Started { block_stored }) => if block_stored {
            (AssemblyStateView::Finished, AssemblyActionView::Stop)
        } else {
            after_fetch(request, Seq::empty())
        },
        (
            AssemblyStateView::Fetching { collected },
            AssemblyEventView::Fetched { transaction: Some(transaction) },
        ) => after_fetch(request, collected.push(transaction)),
        (AssemblyStateView::Fetching { collected }, AssemblyEventView::Fetched { transaction: None }) => (
            AssemblyStateView::Failed {
                error: AssemblyError::MissingTransaction { position: collected.len() as u64 },
            },
            AssemblyActionView::Stop,
        ),
        (AssemblyStateView::Sealing, AssemblyEventView::Committed { commitment }) => (
            AssemblyStateView::Storing { commitment },
            AssemblyActionView::StoreCommitment { commitment },
        ),
        (AssemblyStateView::Storing { commitment }, AssemblyEventView::CommitmentStored) => if request.is_leader {
            (
                AssemblyStateView::Submitting { commitment, retries: 0 },
                AssemblyActionView::Submit { commitment },
            )
        } else {
            (AssemblyStateView::Finished, AssemblyActionView::Stop)
        },
        (
            AssemblyStateView::Submitting { commitment, retries },
            AssemblyEventView::Submitted { accepted },
        ) => if accepted {
            (AssemblyStateView::Finished, AssemblyActionView::Stop)
        } else if retries < retry_limit {
            (
                AssemblyStateView::Submitting { commitment, retries: (retries + 1) as u32 },
                AssemblyActionView::Submit { commitment },
            )
        } else {
            (
                AssemblyStateView::Failed { error: AssemblyError::SubmissionExhausted { retries } },
                AssemblyActionView::Stop,
            )
        },
        _ => (
            AssemblyStateView::Failed { error: AssemblyError::UnexpectedEvent },
            AssemblyActionView::Stop,
        ),
    }
}

/// The step after a transaction came in, or after the start.
fn continue_fetching(request: &AssemblyRequest, collected: Vec<RawTransaction>) -> (res: (
    AssemblyState,
    AssemblyAction,
))
    ensures
        (res.0@, res.1@) == after_fetch(request@, transactions_view(collected@)),
{
    let position = collected.len() as u64;
    if position >= request.tx_count {
        (AssemblyState::Sealing, AssemblyAction::Seal { block: collected })
    } else {
        (AssemblyState::Fetching { collected }, AssemblyAction::Fetch { position })
    }
}

/// One step of the block assembler for `request`: takes the state and what
/// the caller reports, and gives the next state and the next action.
pub fn block_builder(
    request: &AssemblyRequest,
    retry_limit: u32,
    state: AssemblyState,
    event: AssemblyEvent,
) -> (res: (AssemblyState, AssemblyAction))
    ensures
        (res.0@, res.1@) == assembly_step(request@, retry_limit, state@, event@),
{
    match state {
        AssemblyState::Finished => (AssemblyState::Finished, AssemblyAction::Stop),
        AssemblyState::Failed { error } => (AssemblyState::Failed { error }, AssemblyAction::Stop),
        AssemblyState::Idle => match event {
            AssemblyEvent::StoreFailed => store_failed(),
            AssemblyEvent::Started { block_stored } => {
                if block_stored {
                    (AssemblyState::Finished, AssemblyAction::Stop)
                } else {
                    let collected: Vec<RawTransaction> = Vec::new();
                    assert(transactions_view(collected@) =~= Seq::<Seq<u8>>::empty());
                    continue_fetching(request, collected)
                }
            },
            _ => unexpected(),
        },
        AssemblyState::Fetching { collected } => match event {
            AssemblyEvent::StoreFailed => store_failed(),
            AssemblyEvent::Fetched { transaction: Some(transaction) } => {
                let ghost before = transactions_view(collected@);
                let mut collected = collected;
                collected.push(transaction);
                assert(transactions_view(collected@) =~= before.push(transaction@));
                continue_fetching(request, collected)
            },
            AssemblyEvent::Fetched { transaction: None } => {
                let position = collected.len() as u64;
                (
                    AssemblyState::Failed { error: AssemblyError::MissingTransaction { position } },
                    AssemblyAction::Stop,
                )
            },
            _ => unexpected(),
        },
        AssemblyState::Sealing => match event {
            AssemblyEvent::StoreFailed => store_failed(),
            AssemblyEvent::Committed { commitment } => {
                let held = commitment.clone();
                (
                    AssemblyState::Storing { commitment: held },
                    AssemblyAction::StoreCommitment { commitment },
                )
            },
            _ => unexpected(),
        },
        AssemblyState::Storing { commitment } => match event {
            AssemblyEvent::StoreFailed => store_failed(),
            AssemblyEvent::CommitmentStored => {
                if request.is_leader {
                    let sent = commitment.clone();
                    (
                        AssemblyState::Submitting { commitment, retries: 0 },
                        AssemblyAction::Submit { commitment: sent },
                    )
                } else {
                    (AssemblyState::Finished, AssemblyAction::Stop)
                }
            },
            _ => unexpected(),
        },
        AssemblyState::Submitting { commitment, retries } => match event {
            AssemblyEvent::StoreFailed => store_failed(),
            AssemblyEvent::Submitted { accepted } => {
                if accepted {
                    (AssemblyState::Finished, AssemblyAction::Stop)
                } else if retries < retry_limit {
                    let again = commitment.clone();
                    (
                        AssemblyState::Submitting { commitment, retries: retries + 1 },
                        AssemblyAction::Submit { commitment: again },
                    )
                } else {
                    (
                        AssemblyState::Failed { error: AssemblyError::SubmissionExhausted { retries } },
                        AssemblyAction::Stop,
                    )
                }
            },
            _ => unexpected(),
        },
    }
}

/// The step for a failure of the store.
fn store_failed() -> (res: (AssemblyState, AssemblyAction))
    ensures
        res.0@ == (AssemblyStateView::Failed { error: AssemblyError::StoreFailed }),
        res.1@ == AssemblyActionView::Stop,
{
    (AssemblyState::Failed { error: AssemblyError::StoreFailed }, AssemblyAction::Stop)
}

/// The step for an event that answers no action.
fn unexpected() -> (res: (AssemblyState, AssemblyAction))
    ensures
        res.0@ == (AssemblyStateView::Failed { error: AssemblyError::UnexpectedEvent }),
        res.1@ == AssemblyActionView::Stop,
{
    (AssemblyState::Failed { error: AssemblyError::UnexpectedEvent }, AssemblyAction::Stop)
}

} // verus!
