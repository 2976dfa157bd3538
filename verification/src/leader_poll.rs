//! The leader-poll cycle: wait until the sequencer set of one height closes,
//! then move the rollup's cursor up to that height. A cycle that finishes
//! late, for a height that the cursor has reached already, moves nothing, and
//! no cycle writes over a set that is stored.

use vstd::prelude::*;
use crate::ledger::{effects_view, Effect, EffectView};
use crate::types::{
    AssemblyRequest, AssemblyRequestView, BlockHeight, BlockMetadata, BlockMetadataView,
    FailureKind, RollupId, SequencerId, SequencerSet, SequencerSetView, TransactionOrder,
};

verus! {

/// Milliseconds between two queries for a set that has not closed yet.
pub const CLOSED_SET_POLL_INTERVAL_MS: u64 = 100;

/// Why a poll cycle gave up.
#[derive(Clone, Copy, Debug, PartialEq, Eq, Structural)]
pub enum CycleError {
    /// The closed set names no leader: it has no member.
    NoLeader,
    /// The query for the closed set failed for good.
    QueryFailed,
    /// The cursor could not be read, for another reason than its absence.
    CursorUnreadable,
    /// The set stored for the target height could not be read, for another
    /// reason than its absence.
    SetUnreadable,
    /// Another set than the one that closed is stored for the target height.
    ConflictingSet,
    /// The cursor already names the target height or a later one: the cycle
    /// finished too late to move it.
    StaleHeight,
}

/// What reading the set stored for the target height gave, as a mathematical
/// value.
pub enum SetReadView {
    Found { set: SequencerSetView },
    NotFound,
    Failed,
}

/// What reading the set stored for the target height gave.
#[derive(Debug, PartialEq, Eq)]
pub enum SetRead {
    /// The set that an earlier cycle stored for that height.
    Found { set: SequencerSet },
    /// No set was ever stored for that height.
    NotFound,
    /// The store failed otherwise.
    Failed,
}

impl View for SetRead {
    type V = SetReadView;

    open spec fn view(&self) -> SetReadView {
        match *self {
            SetRead::Found { set } => SetReadView::Found { set: set@ },
            SetRead::NotFound => SetReadView::NotFound,
            SetRead::Failed => SetReadView::Failed,
        }
    }
}

/// What reading the cursor of a rollup gave, as a mathematical value.
pub enum CursorReadView {
    Found { metadata: BlockMetadataView, tx_count: TransactionOrder },
    NotFound,
    Failed,
}

/// What reading the cursor of a rollup gave.
#[derive(Debug, PartialEq, Eq)]
pub enum CursorRead {
    /// The cursor, and the number of transactions admitted at the height it
    /// names.
    Found { metadata: BlockMetadata, tx_count: TransactionOrder },
    /// No cursor was ever written for the rollup.
    NotFound,
    /// The store failed otherwise.
    Failed,
}

impl View for CursorRead {
    type V = CursorReadView;

    open spec fn view(&self) -> CursorReadView {
        match *self {
            CursorRead::Found { metadata, tx_count } => CursorReadView::Found {
                metadata: metadata@,
                tx_count,
            },
            CursorRead::NotFound => CursorReadView::NotFound,
            CursorRead::Failed => CursorReadView::Failed,
        }
    }
}

/// What one round of polling saw, as a mathematical value.
pub enum PollObservationView {
    Closed { set: SequencerSetView, stored: SetReadView, cursor: CursorReadView },
    NotClosed,
    Failed { kind: FailureKind },
}

/// What one round of polling saw.
#[derive(Debug, PartialEq, Eq)]
pub enum PollObservation {
    /// The set of the target height has closed. After that, the set stored
    /// for that height and the cursor were read.
    Closed { set: SequencerSet, stored: SetRead, cursor: CursorRead },
    /// The set of the target height is still open.
    NotClosed,
    /// The query itself failed.
    Failed { kind: FailureKind },
}

impl View for PollObservation {
    type V = PollObservationView;

    open spec fn view(&self) -> PollObservationView {
        match *self {
            PollObservation::Closed { set, stored, cursor } => PollObservationView::Closed {
                set: set@,
                stored: stored@,
                cursor: cursor@,
            },
            PollObservation::NotClosed => PollObservationView::NotClosed,
            PollObservation::Failed { kind } => PollObservationView::Failed { kind },
        }
    }
}

/// What a poll cycle does after one round, as a mathematical value.
pub enum PollStepView {
    Retry { delay_ms: u64 },
    Complete { effects: Seq<EffectView> },
    Abort { error: CycleError },
}

/// What a poll cycle does after one round.
#[derive(Debug, PartialEq, Eq)]
pub enum PollStep {
    /// Sleep for `delay_ms` milliseconds, then query again.
    Retry { delay_ms: u64 },
    /// Carry out `effects` in their order; the cycle is over.
    Complete { effects: Vec<Effect> },
    /// Report `error`; the cycle is over and nothing is to be written.
    Abort { error: CycleError },
}

impl View for PollStep {
    type V = PollStepView;

    open spec fn view(&self) -> PollStepView {
        match *self {
            PollStep::Retry { delay_ms } => PollStepView::Retry { delay_ms },
            PollStep::Complete { effects } => PollStepView::Complete {
                effects: effects_view(effects@),
            },
            PollStep::Abort { error } => PollStepView::Abort { error },
        }
    }
}

/// The cursor that a rollup holds once the set of `target_height` has closed
/// with `leader`, on the node `sequencer_id`.
pub open spec fn advanced_cursor(
    sequencer_id: Seq<char>,
    target_height: BlockHeight,
    leader: Seq<char>,
) -> BlockMetadataView {
    BlockMetadataView {
        block_height: target_height,
        is_leader: leader == sequencer_id,
        leader_id: leader,
    }
}

/// What closing `target_height` with `set`, led by `leader`, asks for.
///
/// With a cursor `held`, the block of the height that the cursor names is
/// handed to the assembler first, with the leadership that the cursor records
/// and the `tx_count` read with it. The set is stored next, unless it is
/// stored already. The cursor moves last; without one held, the first cursor
/// of the rollup is written and there is no height to finalize.
pub open spec fn reconciliation(
    rollup_id: Seq<char>,
    sequencer_id: Seq<char>,
    target_height: BlockHeight,
    set: SequencerSetView,
    leader: Seq<char>,
    set_is_stored: bool,
    previous: Option<(BlockMetadataView, TransactionOrder)>,
) -> Seq<EffectView> {
    let metadata = advanced_cursor(sequencer_id, target_height, leader);
    let trigger = match previous {
        Some((held, tx_count)) => seq![
            EffectView::TriggerAssembly {
                request: AssemblyRequestView {
                    rollup_id,
                    height: held.block_height,
                    tx_count,
                    is_leader: held.is_leader,
                },
            },
        ],
        None => Seq::empty(),
    };
    let persist = if set_is_stored {
        Seq::empty()
    } else {
        seq![EffectView::PersistSequencerSet { rollup_id, height: target_height, set }]
    };
    let cursor = match previous {
        Some(_) => EffectView::UpdateCursor { rollup_id, metadata },
        None => EffectView::CreateCursor { rollup_id, metadata },
    };
    (trigger + persist).push(cursor)
}

/// What the closing of `target_height` with `set` comes to, given the set
/// `stored` for that height and the cursor `previous`, where there are any.
///
/// The cycle is refused, and nothing is to be done, where the set names no
/// leader, where another set is stored for the height, and where the cursor
/// stands at the target height or beyond it. Else it asks for the effects of
/// [`reconciliation`].
pub open spec fn reconciled(
    rollup_id: Seq<char>,
    sequencer_id: Seq<char>,
    target_height: BlockHeight,
    set: SequencerSetView,
    stored: Option<SequencerSetView>,
    previous: Option<(BlockMetadataView, TransactionOrder)>,
) -> Result<Seq<EffectView>, CycleError> {
    match set.leader {
        None => Err(CycleError::NoLeader),
        Some(leader) => if stored is Some && stored != Some(set) {
            Err(CycleError::ConflictingSet)
        } else if previous matches Some((held, _)) && target_height <= held.block_height {
            Err(CycleError::StaleHeight)
        } else {
            Ok(
                reconciliation(
                    rollup_id,
                    sequencer_id,
                    target_height,
                    set,
                    leader,
                    stored is Some,
                    previous,
                ),
            )
        },
    }
}

/// What a cycle for `target_height` of `rollup_id`, on the node
/// `sequencer_id`, does after seeing `observation`.
///
/// An open set and a transient fault are both answered by another query after
/// the poll interval. A closed set ends the cycle: with an error and no effect
/// where a read of the store failed or [`reconciled`] refuses, and with the
/// effects that it asks for otherwise.
pub open spec fn poll_step(
    rollup_id: Seq<char>,
    sequencer_id: Seq<char>,
    target_height: BlockHeight,
    observation: PollObservationView,
) -> PollStepView {
    match observation {
        PollObservationView::NotClosed => PollStepView::Retry {
            delay_ms: CLOSED_SET_POLL_INTERVAL_MS,
        },
        PollObservationView::Failed { kind: FailureKind::Transient } => PollStepView::Retry {
            delay_ms: CLOSED_SET_POLL_INTERVAL_MS,
        },
        PollObservationView::Failed { kind: FailureKind::Fatal } => PollStepView::Abort {
            error: CycleError::QueryFailed,
        },
        PollObservationView::Closed { set, stored, cursor } => {
            if cursor is Failed {
                PollStepView::Abort { error: CycleError::CursorUnreadable }
            } else if stored is Failed {
                PollStepView::Abort { error: CycleError::SetUnreadable }
            } else {
                let kept = match stored {
                    SetReadView::Found { set } => Some(set),
                    _ => None,
                };
                let previous = match cursor {
                    CursorReadView::Found { metadata, tx_count } => Some((metadata, tx_count)),
                    _ => None,
                };
                match reconciled(rollup_id, sequencer_id, target_height, set, kept, previous) {
                    Ok(effects) => PollStepView::Complete { effects },
                    Err(error) => PollStepView::Abort { error },
                }
            }
        },
    }
}

/// The set that was read, as a mathematical value.
pub open spec fn stored_view(stored: Option<SequencerSet>) -> Option<SequencerSetView> {
    match stored {
        Some(set) => Some(set@),
        None => None,
    }
}

/// The cursor that was read and the count read with it, as mathematical
/// values.
pub open spec fn previous_view(previous: Option<(BlockMetadata, TransactionOrder)>) -> Option<
    (BlockMetadataView, TransactionOrder),
> {
    match previous {
        Some((held, tx_count)) => Some((held@, tx_count)),
        None => None,
    }
}

/// Reconciles the records of `rollup_id` with the set that closed
/// `target_height`: the effects that finalize the height held so far, store
/// the set and move the cursor, or the reason why the cycle is refused.
pub fn reconcile(
    rollup_id: &RollupId,
    sequencer_id: &SequencerId,
    target_height: BlockHeight,
    set: SequencerSet,
    stored: Option<SequencerSet>,
    previous: Option<(BlockMetadata, TransactionOrder)>,
) -> (res: Result<Vec<Effect>, CycleError>)
    ensures
        match reconciled(
            rollup_id@,
            sequencer_id@,
            target_height,
            set@,
            stored_view(stored),
            previous_view(previous),
        ) {
            Ok(effects) => res matches Ok(list) && effects_view(list@) == effects,
            Err(error) => res == Err::<Vec<Effect>, CycleError>(error),
        },
{
    let leader_id = match set.leader() {
        Some(id) => id,
        None => {
            return Err(CycleError::NoLeader);
        },
    };
    let set_is_stored = match &stored {
        Some(kept) => {
            if !kept.same_as(&set) {
                return Err(CycleError::ConflictingSet);
            }
            true
        },
        None => false,
    };
    let is_leader = leader_id.same_as(sequencer_id);
    let ghost set_view = set@;
    let mut effects: Vec<Effect> = Vec::new();
    let cursor = match previous {
        Some((mut metadata, tx_count)) => {
            if target_height <= metadata.block_height() {
                return Err(CycleError::StaleHeight);
            }
            let request = AssemblyRequest {
                rollup_id: rollup_id.clone(),
                height: metadata.block_height(),
                tx_count,
                is_leader: metadata.is_leader(),
            };
            effects.push(Effect::TriggerAssembly { request });
            metadata.update(target_height, is_leader, leader_id);
            Effect::UpdateCursor { rollup_id: rollup_id.clone(), metadata }
        },
        None => {
            let metadata = BlockMetadata::new(target_height, is_leader, leader_id);
            Effect::CreateCursor { rollup_id: rollup_id.clone(), metadata }
        },
    };
    if !set_is_stored {
        effects.push(
            Effect::PersistSequencerSet { rollup_id: rollup_id.clone(), height: target_height, set },
        );
    }
    effects.push(cursor);
    assert(effects_view(effects@) =~= reconciliation(
        rollup_id@,
        sequencer_id@,
        target_height,
        set_view,
        set_view.leader.unwrap(),
        set_is_stored,
        previous_view(previous),
    ));
    Ok(effects)
}

/// One decision of the leader-poll cycle for `target_height` of `rollup_id`,
/// on the node `sequencer_id`: what to do after a round that saw
/// `observation`.
pub fn leader_poller(
    rollup_id: &RollupId,
    sequencer_id: &SequencerId,
    target_height: BlockHeight,
    observation: PollObservation,
) -> (step: PollStep)
    ensures
        step@ == poll_step(rollup_id@, sequencer_id@, target_height, observation@),
{
    match observation {
        PollObservation::NotClosed => PollStep::Retry { delay_ms: CLOSED_SET_POLL_INTERVAL_MS },
        PollObservation::Failed { kind: FailureKind::Transient } => PollStep::Retry {
            delay_ms: CLOSED_SET_POLL_INTERVAL_MS,
        },
        PollObservation::Failed { kind: FailureKind::Fatal } => PollStep::Abort {
            error: CycleError::QueryFailed,
        },
        PollObservation::Closed { set, stored, cursor } => {
            let previous = match cursor {
                CursorRead::Failed => {
                    return PollStep::Abort { error: CycleError::CursorUnreadable };
                },
                CursorRead::NotFound => None,
                CursorRead::Found { metadata, tx_count } => Some((metadata, tx_count)),
            };
            let kept = match stored {
                SetRead::Failed => {
                    return PollStep::Abort { error: CycleError::SetUnreadable };
                },
                SetRead::NotFound => None,
                SetRead::Found { set } => Some(set),
            };
            match reconcile(rollup_id, sequencer_id, target_height, set, kept, previous) {
                Ok(effects) => PollStep::Complete { effects },
                Err(error) => PollStep::Abort { error },
            }
        },
    }
}

} // verus!
